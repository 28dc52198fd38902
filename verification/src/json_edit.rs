//! Reading and changing JSON objects.
use crate::json::{
    document, lemma_members, members, JsonMember, JsonNumber, JsonValue, JsonView, MemberView,
};
use crate::text::{owned, text_is};
use vstd::prelude::*;

verus! {

/// Whether a member has the key.
pub open spec fn has_key(key: Seq<char>) -> spec_fn(MemberView) -> bool {
    |m: MemberView| m.key == key
}

/// The place of the first member with the key.
pub open spec fn member_place(o: Seq<MemberView>, key: Seq<char>) -> int {
    crate::lists::first(o, has_key(key))
}

/// The value under a key.
pub open spec fn lookup(o: Seq<MemberView>, key: Seq<char>) -> Option<JsonView> {
    if member_place(o, key) < o.len() {
        Some(o[member_place(o, key)].value)
    } else {
        None
    }
}

/// The object with another value under a key.
pub open spec fn put(o: Seq<MemberView>, key: Seq<char>, value: JsonView) -> Seq<MemberView> {
    let at = member_place(o, key);
    if at < o.len() {
        o.update(at, MemberView { key: o[at].key, value })
    } else {
        o.push(MemberView { key, value })
    }
}

/// The object without the first member with a key.
pub open spec fn without(o: Seq<MemberView>, key: Seq<char>) -> Seq<MemberView> {
    let at = member_place(o, key);
    if at < o.len() {
        o.remove(at)
    } else {
        o
    }
}

/// Whether no two members have the same key.
pub open spec fn keys_differ(o: Seq<MemberView>) -> bool {
    forall|i: int, j: int| 0 <= i < j < o.len() ==> (#[trigger] o[i]).key != (#[trigger] o[j]).key
}

pub proof fn lemma_place(o: Seq<MemberView>, key: Seq<char>)
    ensures
        0 <= member_place(o, key) <= o.len(),
        member_place(o, key) < o.len() ==> o[member_place(o, key)].key == key,
        forall|i: int| 0 <= i < member_place(o, key) ==> (#[trigger] o[i]).key != key,
{
    let p = has_key(key);
    crate::lists::lemma_first(o, p);
    assert forall|i: int| 0 <= i < member_place(o, key) implies (#[trigger] o[i]).key != key by {
        assert(!p(o[i]));
    }
}

pub proof fn lemma_place_is(o: Seq<MemberView>, key: Seq<char>, at: int)
    requires
        0 <= at <= o.len(),
        at < o.len() ==> o[at].key == key,
        forall|i: int| 0 <= i < at ==> (#[trigger] o[i]).key != key,
    ensures
        member_place(o, key) == at,
{
    let p = has_key(key);
    assert forall|i: int| 0 <= i < at implies !p(#[trigger] o[i]) by {
        assert(o[i].key != key);
    }
    crate::lists::lemma_first_is(o, p, at);
}

/// What was put under a key is found there, and nothing changes under another.
pub proof fn put_is_found(o: Seq<MemberView>, key: Seq<char>, value: JsonView, other: Seq<char>)
    ensures
        lookup(put(o, key, value), key) == Some(value),
        other != key ==> lookup(put(o, key, value), other) == lookup(o, other),
        keys_differ(o) ==> keys_differ(put(o, key, value)),
{
    let p = put(o, key, value);
    lemma_place(o, key);
    lemma_place(o, other);
    let at = member_place(o, key);
    assert forall|i: int| 0 <= i < at implies (#[trigger] p[i]).key != key by {
        assert(o[i].key != key);
    }
    lemma_place_is(p, key, at);
    if other != key {
        let k = member_place(o, other);
        assert forall|i: int| 0 <= i < k implies (#[trigger] p[i]).key != other by {
            assert(o[i].key != other);
        }
        if k < o.len() {
            lemma_place_is(p, other, k);
        } else {
            assert forall|i: int| 0 <= i < p.len() implies (#[trigger] p[i]).key != other by {
                if i < o.len() {
                    assert(o[i].key != other);
                }
            }
            lemma_place_is(p, other, p.len() as int);
        }
    }
    if keys_differ(o) {
        assert forall|i: int, j: int| 0 <= i < j < p.len() implies (#[trigger] p[i]).key != (
        #[trigger] p[j]).key by {
            if j < o.len() {
                assert(o[i].key != o[j].key);
            } else {
                assert(o[i].key != key);
            }
        }
    }
}

/// What was removed is not found where keys differ, and nothing changes under another key.
pub proof fn removed_is_not_found(o: Seq<MemberView>, key: Seq<char>, other: Seq<char>)
    requires
        keys_differ(o),
    ensures
        lookup(without(o, key), key) is None,
        other != key ==> lookup(without(o, key), other) == lookup(o, other),
        keys_differ(without(o, key)),
{
    let p = without(o, key);
    lemma_place(o, key);
    lemma_place(o, other);
    let at = member_place(o, key);
    if at < o.len() {
        assert forall|i: int| 0 <= i < p.len() implies (#[trigger] p[i]).key != key by {
            if i < at {
                assert(o[i].key != key);
            } else {
                assert(o[at].key != o[i + 1].key);
            }
        }
        lemma_place_is(p, key, p.len() as int);
        if other != key {
            let k = member_place(o, other);
            let moved = if k > at {
                k - 1
            } else {
                k
            };
            assert forall|i: int| 0 <= i < moved implies (#[trigger] p[i]).key != other by {
                if i < at {
                    assert(o[i].key != other);
                } else {
                    assert(o[i + 1].key != other);
                }
            }
            lemma_place_is(p, other, moved);
        }
        assert forall|i: int, j: int| 0 <= i < j < p.len() implies (#[trigger] p[i]).key != (
        #[trigger] p[j]).key by {
            let a = if i < at {
                i
            } else {
                i + 1
            };
            let b = if j < at {
                j
            } else {
                j + 1
            };
            assert(o[a].key != o[b].key);
        }
    } else {
        lemma_place_is(p, key, p.len() as int);
    }
}

/// The place of the first member with the key, or the length.
pub fn find_member(entries: &Vec<JsonMember>, key: &str) -> (at: usize)
    ensures
        at == member_place(members(entries@), key@),
        at <= entries.len(),
{
    proof {
        lemma_members(entries@);
    }
    let mut i: usize = 0;
    while i < entries.len()
        invariant
            i <= entries.len(),
            members(entries@).len() == entries.len(),
            forall|j: int|
                0 <= j < entries.len() ==> #[trigger] members(entries@)[j] == entries@[j]@,
            forall|j: int| 0 <= j < i ==> (#[trigger] members(entries@)[j]).key != key@,
        decreases entries.len() - i,
    {
        assert(members(entries@)[i as int] == entries@[i as int]@);
        if text_is(entries[i].key.as_str(), key) {
            proof {
                lemma_place_is(members(entries@), key@, i as int);
            }
            return i;
        }
        i += 1;
    }
    proof {
        lemma_place_is(members(entries@), key@, i as int);
    }
    i
}

/// The value under a key.
pub fn get_member<'a>(entries: &'a Vec<JsonMember>, key: &str) -> (value: Option<&'a JsonValue>)
    ensures
        match (value, lookup(members(entries@), key@)) {
            (Some(v), Some(w)) => v@ == w,
            (None, None) => true,
            _ => false,
        },
{
    proof {
        lemma_members(entries@);
    }
    let at = find_member(entries, key);
    if at < entries.len() {
        assert(members(entries@)[at as int] == entries@[at as int]@);
        Some(&entries[at].value)
    } else {
        None
    }
}

/// Puts a value under a key.
pub fn put_member(entries: &mut Vec<JsonMember>, key: &str, value: JsonValue)
    ensures
        members(final(entries)@) == put(members(old(entries)@), key@, value@),
{
    let ghost before = entries@;
    proof {
        lemma_members(before);
    }
    let at = find_member(entries, key);
    if at < entries.len() {
        let member = JsonMember { key: owned(entries[at].key.as_str()), value };
        let ghost m = member@;
        entries.set(at, member);
        proof {
            lemma_members(entries@);
            assert(members(before)[at as int] == before[at as int]@);
            assert(members(entries@) =~= members(before).update(at as int, m)) by {
                assert forall|j: int| 0 <= j < before.len() implies #[trigger] members(entries@)[j]
                    == members(before).update(at as int, m)[j] by {
                    assert(members(entries@)[j] == entries@[j]@);
                    assert(members(before)[j] == before[j]@);
                }
            }
        }
    } else {
        let member = JsonMember { key: owned(key), value };
        let ghost m = member@;
        entries.push(member);
        proof {
            lemma_members(entries@);
            assert(members(entries@) =~= members(before).push(m)) by {
                assert forall|j: int| 0 <= j < entries@.len() implies #[trigger] members(
                    entries@,
                )[j] == members(before).push(m)[j] by {
                    assert(members(entries@)[j] == entries@[j]@);
                    if j < before.len() {
                        assert(members(before)[j] == before[j]@);
                    }
                }
            }
        }
    }
}

/// Puts a text under a key.
pub fn put_text(entries: &mut Vec<JsonMember>, key: &str, text: &str)
    ensures
        members(final(entries)@) == put(members(old(entries)@), key@, JsonView::Text(text@)),
{
    put_member(entries, key, JsonValue::Text(owned(text)));
}

/// Removes the first member with a key.
pub fn remove_member(entries: &mut Vec<JsonMember>, key: &str)
    ensures
        members(final(entries)@) == without(members(old(entries)@), key@),
{
    let ghost before = entries@;
    proof {
        lemma_members(before);
    }
    let at = find_member(entries, key);
    if at < entries.len() {
        entries.remove(at);
        proof {
            lemma_members(entries@);
            assert(members(entries@) =~= members(before).remove(at as int)) by {
                assert forall|j: int| 0 <= j < entries@.len() implies #[trigger] members(
                    entries@,
                )[j] == members(before).remove(at as int)[j] by {
                    assert(members(entries@)[j] == entries@[j]@);
                    assert(members(before)[if j < at {
                        j
                    } else {
                        j + 1
                    }] == before[if j < at {
                        j
                    } else {
                        j + 1
                    }]@);
                }
            }
        }
    }
}

/// Takes the value under a key out, and leaves nothing in its place.
fn take_value(entries: &mut Vec<JsonMember>, at: usize) -> (value: JsonValue)
    requires
        at < old(entries).len(),
    ensures
        value@ == members(old(entries)@)[at as int].value,
        members(final(entries)@) == members(old(entries)@).update(
            at as int,
            MemberView { key: members(old(entries)@)[at as int].key, value: JsonView::Null },
        ),
        final(entries).len() == old(entries).len(),
{
    let ghost before = entries@;
    let mut value = JsonValue::Null;
    std::mem::swap(&mut value, &mut entries[at].value);
    proof {
        lemma_members(before);
        lemma_members(entries@);
        let empty = MemberView { key: members(before)[at as int].key, value: JsonView::Null };
        assert(members(before)[at as int] == before[at as int]@);
        assert forall|j: int| 0 <= j < before.len() implies #[trigger] members(entries@)[j]
            == members(before).update(at as int, empty)[j] by {
            assert(members(entries@)[j] == entries@[j]@);
            assert(members(before)[j] == before[j]@);
        }
        assert(members(entries@) =~= members(before).update(at as int, empty));
    }
    value
}

fn set_value(entries: &mut Vec<JsonMember>, at: usize, value: JsonValue)
    requires
        at < old(entries).len(),
    ensures
        members(final(entries)@) == members(old(entries)@).update(
            at as int,
            MemberView { key: members(old(entries)@)[at as int].key, value: value@ },
        ),
        final(entries).len() == old(entries).len(),
{
    let ghost before = entries@;
    entries[at].value = value;
    proof {
        lemma_members(before);
        lemma_members(entries@);
        let m = MemberView { key: members(before)[at as int].key, value: value@ };
        assert(members(before)[at as int] == before[at as int]@);
        assert forall|j: int| 0 <= j < before.len() implies #[trigger] members(entries@)[j]
            == members(before).update(at as int, m)[j] by {
            assert(members(entries@)[j] == entries@[j]@);
            assert(members(before)[j] == before[j]@);
        }
        assert(members(entries@) =~= members(before).update(at as int, m));
    }
}

/// A document with another laid over it: objects are merged member by member, anything
/// else is replaced.
pub open spec fn merged(base: JsonView, overlay: JsonView) -> JsonView
    decreases overlay,
{
    match (base, overlay) {
        (JsonView::Object(b), JsonView::Object(o)) => JsonView::Object(merged_members(b, o)),
        _ => overlay,
    }
}

/// An object with the members of another laid over it.
pub open spec fn merged_members(b: Seq<MemberView>, o: Seq<MemberView>) -> Seq<MemberView>
    decreases o,
{
    if o.len() == 0 {
        b
    } else {
        let front = merged_members(b, o.drop_last());
        let m = o.last();
        match lookup(front, m.key) {
            Some(v) => put(front, m.key, merged(v, m.value)),
            None => put(front, m.key, m.value),
        }
    }
}

/// Lays a document over another.
pub fn merge_json_value(base: JsonValue, overlay: &JsonValue) -> (out: JsonValue)
    ensures
        out@ == merged(base@, overlay@),
    decreases overlay,
{
    if let JsonValue::Object(o) = overlay {
        if let JsonValue::Object(b) = base {
            let mut out = b;
            let ghost all = members(o@);
            let ghost first = members(out@);
            proof {
                lemma_members(o@);
            }
            let mut i: usize = 0;
            assert(all.take(0) =~= seq![]);
            while i < o.len()
                invariant
                    i <= o.len(),
                    overlay matches JsonValue::Object(x) && x == *o,
                    all == members(o@),
                    all.len() == o.len(),
                    forall|j: int| 0 <= j < o.len() ==> #[trigger] all[j] == o@[j]@,
                    members(out@) == merged_members(first, all.take(i as int)),
                decreases o.len() - i,
            {
                assert(all.take(i + 1).drop_last() =~= all.take(i as int));
                assert(all.take(i + 1).last() == o@[i as int]@);
                assert(decreases_to!(overlay => o@[i as int].value));
                let ghost so_far = members(out@);
                proof {
                    lemma_members(out@);
                    lemma_place(so_far, o@[i as int].key@);
                }
                let at = find_member(&out, o[i].key.as_str());
                if at < out.len() {
                    let v = take_value(&mut out, at);
                    let m = merge_json_value(v, &o[i].value);
                    let ghost mm = m@;
                    set_value(&mut out, at, m);
                    assert(members(out@) =~= put(so_far, o@[i as int].key@, mm));
                } else {
                    put_member(&mut out, o[i].key.as_str(), o[i].value.clone());
                }
                i += 1;
            }
            assert(all.take(i as int) =~= all);
            return JsonValue::Object(out);
        }
    }
    overlay.clone()
}

/// What is laid over a document shows: under a key of the overlay is its value, merged with
/// what was there, and nothing else changes.
pub proof fn overlay_shows(b: Seq<MemberView>, o: Seq<MemberView>, key: Seq<char>)
    requires
        keys_differ(o),
    ensures
        lookup(merged_members(b, o), key) == match (lookup(b, key), lookup(o, key)) {
            (Some(v), Some(w)) => Some(merged(v, w)),
            (None, Some(w)) => Some(w),
            (v, None) => v,
        },
        keys_differ(b) ==> keys_differ(merged_members(b, o)),
    decreases o.len(),
{
    lemma_place(o, key);
    if o.len() > 0 {
        let front_o = o.drop_last();
        let m = o.last();
        assert forall|i: int, j: int| 0 <= i < j < front_o.len() implies (
        #[trigger] front_o[i]).key != (#[trigger] front_o[j]).key by {
            assert(o[i].key != o[j].key);
        }
        overlay_shows(b, front_o, key);
        overlay_shows(b, front_o, m.key);
        let front = merged_members(b, front_o);
        let value = match lookup(front, m.key) {
            Some(v) => merged(v, m.value),
            None => m.value,
        };
        put_is_found(front, m.key, value, key);
        assert forall|i: int| 0 <= i < front_o.len() implies (#[trigger] front_o[i]).key
            != m.key by {
            assert(o[i].key != o[o.len() - 1].key);
        }
        lemma_place_is(front_o, m.key, front_o.len() as int);
        assert forall|i: int| 0 <= i < o.len() - 1 implies (#[trigger] o[i]).key != m.key by {
            assert(front_o[i].key != m.key);
        }
        lemma_place_is(o, m.key, o.len() - 1);
        if key != m.key {
            lemma_place(front_o, key);
            let k = member_place(front_o, key);
            assert forall|i: int| 0 <= i < k implies (#[trigger] o[i]).key != key by {
                assert(front_o[i].key != key);
            }
            if k < front_o.len() {
                lemma_place_is(o, key, k);
            } else {
                lemma_place_is(o, key, o.len() as int);
            }
        }
    }
}

/// The text under a key, if there is one.
pub open spec fn text_at(o: Seq<MemberView>, key: Seq<char>) -> Option<Seq<char>> {
    match lookup(o, key) {
        Some(JsonView::Text(t)) => Some(t),
        _ => None,
    }
}

/// The text under a key, if there is one.
pub fn get_text(entries: &Vec<JsonMember>, key: &str) -> (text: Option<String>)
    ensures
        crate::copying::optional(text) == text_at(members(entries@), key@),
{
    match get_member(entries, key) {
        Some(JsonValue::Text(t)) => Some(owned(t.as_str())),
        _ => None,
    }
}

/// The whole number under a key, if there is one.
pub open spec fn number_at(o: Seq<MemberView>, key: Seq<char>) -> Option<u64> {
    match lookup(o, key) {
        Some(JsonView::Number(JsonNumber::Unsigned(n))) => Some(n),
        _ => None,
    }
}

/// The whole number under a key, if there is one.
pub fn get_number(entries: &Vec<JsonMember>, key: &str) -> (n: Option<u64>)
    ensures
        n == number_at(members(entries@), key@),
{
    match get_member(entries, key) {
        Some(JsonValue::Number(JsonNumber::Unsigned(n))) => Some(*n),
        _ => None,
    }
}

/// The members of the object under a key; none where there is no object.
pub open spec fn object_at(o: Seq<MemberView>, key: Seq<char>) -> Seq<MemberView> {
    match lookup(o, key) {
        Some(JsonView::Object(m)) => m,
        _ => seq![],
    }
}

/// Takes the members of the object under a key out; none where there is no object. What is
/// under the key afterwards is to be set.
pub fn take_object(entries: &mut Vec<JsonMember>, key: &str) -> (o: Vec<JsonMember>)
    ensures
        members(o@) == object_at(members(old(entries)@), key@),
        forall|v: JsonView|
            #![trigger put(members(final(entries)@), key@, v)]
            put(members(final(entries)@), key@, v) == put(members(old(entries)@), key@, v),
{
    let ghost before = members(entries@);
    proof {
        lemma_members(entries@);
        lemma_place(before, key@);
    }
    let at = find_member(entries, key);
    if at < entries.len() {
        let v = take_value(entries, at);
        proof {
            let now = members(entries@);
            assert forall|i: int| 0 <= i < at implies (#[trigger] now[i]).key != key@ by {
                assert(before[i].key != key@);
            }
            lemma_place_is(now, key@, at as int);
            assert forall|v: JsonView| #[trigger] put(now, key@, v) == put(before, key@, v) by {
                assert(put(now, key@, v) =~= put(before, key@, v));
            }
        }
        if let JsonValue::Object(o) = v {
            return o;
        }
    }
    let none: Vec<JsonMember> = Vec::new();
    assert(members(none@) =~= seq![]);
    none
}

} // verus!
