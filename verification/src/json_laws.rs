//! What holds of documents laid over each other.
use crate::json::{JsonView, MemberView};
use crate::json_edit::{
    keys_differ, lemma_place, lemma_place_is, lookup, member_place, merged, merged_members,
    object_at, overlay_shows, put, put_is_found, removed_is_not_found, without,
};
use vstd::prelude::*;

verus! {

/// Whether no object in the document has two members with the same key. What stands in a list is
/// not looked at.
pub open spec fn distinct(v: JsonView) -> bool
    decreases v,
{
    match v {
        JsonView::Object(o) => keys_differ(o) && forall|i: int|
            0 <= i < o.len() ==> distinct((#[trigger] o[i]).value),
        _ => true,
    }
}

/// Whether the keys of the first object come first in the second, in the same order.
pub open spec fn begins(u: Seq<MemberView>, o: Seq<MemberView>) -> bool {
    &&& keys_differ(o)
    &&& u.len() <= o.len()
    &&& forall|i: int| 0 <= i < u.len() ==> (#[trigger] o[i]).key == u[i].key
}

pub proof fn lemma_begins_put(u: Seq<MemberView>, o: Seq<MemberView>, key: Seq<char>, v: JsonView)
    requires
        begins(u, o),
    ensures
        begins(u, put(o, key, v)),
{
    put_is_found(o, key, v, key);
    lemma_place(o, key);
}

pub proof fn lemma_begins_without(u: Seq<MemberView>, o: Seq<MemberView>, key: Seq<char>)
    requires
        begins(u, o),
        forall|i: int| 0 <= i < u.len() ==> (#[trigger] u[i]).key != key,
    ensures
        begins(u, without(o, key)),
{
    removed_is_not_found(o, key, key);
    lemma_place(o, key);
    let at = member_place(o, key);
    if at < o.len() {
        if at < u.len() {
            assert(o[at].key == u[at].key);
        }
        assert forall|i: int| 0 <= i < u.len() implies (#[trigger] without(o, key)[i]).key
            == u[i].key by {
            assert(without(o, key)[i] == o[i]);
        }
    }
}

/// A member at its place is the one that is found under its key.
pub proof fn lemma_found_at(o: Seq<MemberView>, i: int)
    requires
        0 <= i < o.len(),
        keys_differ(o),
    ensures
        lookup(o, o[i].key) == Some(o[i].value),
        member_place(o, o[i].key) == i,
{
    assert forall|j: int| 0 <= j < i implies (#[trigger] o[j]).key != o[i].key by {
        assert(o[j].key != o[i].key);
    }
    lemma_place_is(o, o[i].key, i);
}

/// Putting what is found changes nothing.
pub proof fn lemma_put_same(o: Seq<MemberView>, key: Seq<char>, v: JsonView)
    requires
        lookup(o, key) == Some(v),
    ensures
        put(o, key, v) == o,
{
    lemma_place(o, key);
    assert(put(o, key, v) =~= o);
}

pub proof fn lemma_merged_begins(b: Seq<MemberView>, o: Seq<MemberView>)
    requires
        keys_differ(b),
    ensures
        begins(b, merged_members(b, o)),
    decreases o.len(),
{
    if o.len() > 0 {
        let front = merged_members(b, o.drop_last());
        lemma_merged_begins(b, o.drop_last());
        let m = o.last();
        match lookup(front, m.key) {
            Some(v) => {
                lemma_begins_put(b, front, m.key, merged(v, m.value));
            },
            None => {
                lemma_begins_put(b, front, m.key, m.value);
            },
        }
    }
}

/// Laying an object over one whose members it has already changes nothing.
pub proof fn lemma_covered(u: Seq<MemberView>, o: Seq<MemberView>)
    requires
        begins(u, o),
        forall|i: int|
            0 <= i < u.len() ==> merged(u[i].value, (#[trigger] o[i]).value) == o[i].value,
    ensures
        merged_members(u, o) == o,
{
    lemma_covered_front(u, o, o.len() as int);
    assert(o.take(o.len() as int) =~= o);
    assert(u.skip(u.len() as int) =~= seq![]);
    assert(o + u.skip(u.len() as int) =~= o);
}

proof fn lemma_covered_front(u: Seq<MemberView>, o: Seq<MemberView>, k: int)
    requires
        begins(u, o),
        0 <= k <= o.len(),
        forall|i: int|
            0 <= i < u.len() ==> merged(u[i].value, (#[trigger] o[i]).value) == o[i].value,
    ensures
        merged_members(u, o.take(k)) == o.take(k) + if k < u.len() {
            u.skip(k)
        } else {
            seq![]
        },
    decreases k,
{
    if k == 0 {
        assert(o.take(0) =~= seq![]);
        assert(u.skip(0) =~= u);
        assert(merged_members(u, o.take(0)) =~= o.take(0) + if 0 < u.len() {
            u.skip(0)
        } else {
            seq![]
        });
    } else {
        let n = k - 1;
        lemma_covered_front(u, o, n);
        let part = o.take(k);
        assert(part.drop_last() =~= o.take(n));
        assert(part.last() == o[n]);
        let front = merged_members(u, o.take(n));
        let m = o[n];
        assert forall|i: int| 0 <= i < front.len() && i != n implies (#[trigger] front[i]).key
            != m.key by {
            if i < n {
                assert(front[i] == o[i]);
            } else {
                assert(front[i] == u[i]);
                assert(o[i].key == u[i].key);
                assert(o[n].key != o[i].key);
            }
        }
        lemma_place_is(front, m.key, n);
        let r = merged_members(u, part);
        if n < u.len() {
            assert(front[n] == u[n]);
            assert(o[n].key == u[n].key);
            assert(lookup(front, m.key) == Some(u[n].value));
            assert(r == front.update(n, m));
        } else {
            assert(r == front.push(m));
        }
        assert(r =~= part + if k < u.len() {
            u.skip(k)
        } else {
            seq![]
        });
    }
}

/// A document laid over itself is itself.
pub proof fn lemma_merged_self(v: JsonView)
    requires
        distinct(v),
    ensures
        merged(v, v) == v,
    decreases v,
{
    if let JsonView::Object(o) = v {
        assert forall|i: int| 0 <= i < o.len() implies merged(o[i].value, (#[trigger] o[i]).value)
            == o[i].value by {
            assert(distinct(o[i].value));
            lemma_merged_self(o[i].value);
        }
        lemma_covered(o, o);
    }
}

/// Laying a document over another twice is as laying it over it once.
pub proof fn merging_twice_is_once(b: JsonView, o: JsonView)
    requires
        distinct(b),
        distinct(o),
    ensures
        merged(b, merged(b, o)) == merged(b, o),
    decreases o,
{
    if let (JsonView::Object(u), JsonView::Object(w)) = (b, o) {
        let r = merged_members(u, w);
        lemma_merged_begins(u, w);
        assert forall|i: int| 0 <= i < u.len() implies merged(u[i].value, (#[trigger] r[i]).value)
            == r[i].value by {
            lemma_found_at(u, i);
            lemma_found_at(r, i);
            overlay_shows(u, w, u[i].key);
            assert(distinct(u[i].value));
            lemma_place(w, u[i].key);
            let j = member_place(w, u[i].key);
            if j < w.len() {
                assert(distinct(w[j].value));
                merging_twice_is_once(u[i].value, w[j].value);
            } else {
                lemma_merged_self(u[i].value);
            }
        }
        lemma_covered(u, r);
    }
}

/// Documents without two members of the same key give such a document when one is laid over the
/// other.
pub proof fn merged_keys_differ(b: JsonView, o: JsonView)
    requires
        distinct(b),
        distinct(o),
    ensures
        distinct(merged(b, o)),
    decreases o,
{
    if let (JsonView::Object(u), JsonView::Object(w)) = (b, o) {
        let r = merged_members(u, w);
        lemma_merged_begins(u, w);
        assert forall|i: int| 0 <= i < r.len() implies distinct((#[trigger] r[i]).value) by {
            let key = r[i].key;
            lemma_found_at(r, i);
            overlay_shows(u, w, key);
            lemma_place(u, key);
            lemma_place(w, key);
            let a = member_place(u, key);
            let j = member_place(w, key);
            if a < u.len() {
                assert(distinct(u[a].value));
            }
            if j < w.len() {
                assert(distinct(w[j].value));
            }
            if a < u.len() && j < w.len() {
                merged_keys_differ(u[a].value, w[j].value);
            }
        }
    }
}

/// Another value under a key, and a member less, keep the keys of a document different.
pub proof fn edited_keys_differ(o: Seq<MemberView>, key: Seq<char>, v: JsonView)
    requires
        distinct(JsonView::Object(o)),
        distinct(v),
    ensures
        distinct(JsonView::Object(put(o, key, v))),
        distinct(JsonView::Object(without(o, key))),
{
    put_is_found(o, key, v, key);
    removed_is_not_found(o, key, key);
    lemma_place(o, key);
    let at = member_place(o, key);
    let p = put(o, key, v);
    assert forall|i: int| 0 <= i < p.len() implies distinct((#[trigger] p[i]).value) by {
        if i != at {
            assert(p[i] == o[i]);
        }
    }
    let w = without(o, key);
    assert forall|i: int| 0 <= i < w.len() implies distinct((#[trigger] w[i]).value) by {
        if at < o.len() && i >= at {
            assert(w[i] == o[i + 1]);
        } else {
            assert(w[i] == o[i]);
        }
    }
}

/// What is found in a document has different keys as well.
pub proof fn lemma_found_distinct(o: Seq<MemberView>, key: Seq<char>)
    requires
        distinct(JsonView::Object(o)),
    ensures
        lookup(o, key) matches Some(v) ==> distinct(v),
        distinct(JsonView::Object(object_at(o, key))),
{
    lemma_place(o, key);
    let at = member_place(o, key);
    if at < o.len() {
        assert(distinct(o[at].value));
    }
}

} // verus!
