//! JSON documents as plain values.
use crate::copying::Duplicate;
use vstd::prelude::*;

verus! {

/// A JSON number: a whole one, or the bit pattern of a double-precision one.
#[derive(Clone, Copy, Debug, PartialEq, Eq, Structural)]
pub enum JsonNumber {
    Unsigned(u64),
    Negative(i64),
    Double(u64),
}

/// A JSON document.
#[derive(Debug)]
pub enum JsonValue {
    Null,
    Bool(bool),
    Number(JsonNumber),
    Text(String),
    Array(Vec<JsonValue>),
    Object(Vec<JsonMember>),
}

/// A key of a JSON object with its value.
#[derive(Debug)]
pub struct JsonMember {
    pub key: String,
    pub value: JsonValue,
}

/// What a JSON document holds.
pub ghost enum JsonView {
    Null,
    Bool(bool),
    Number(JsonNumber),
    Text(Seq<char>),
    Array(Seq<JsonView>),
    Object(Seq<MemberView>),
}

/// What a member of a JSON object holds.
pub ghost struct MemberView {
    pub key: Seq<char>,
    pub value: JsonView,
}

impl View for JsonValue {
    type V = JsonView;

    open spec fn view(&self) -> JsonView {
        document(*self)
    }
}

impl View for JsonMember {
    type V = MemberView;

    open spec fn view(&self) -> MemberView {
        MemberView { key: self.key@, value: self.value@ }
    }
}

/// What a JSON document holds.
pub open spec fn document(value: JsonValue) -> JsonView
    decreases value,
{
    match value {
        JsonValue::Null => JsonView::Null,
        JsonValue::Bool(b) => JsonView::Bool(b),
        JsonValue::Number(n) => JsonView::Number(n),
        JsonValue::Text(t) => JsonView::Text(t@),
        JsonValue::Array(items) => JsonView::Array(documents(items@)),
        JsonValue::Object(entries) => JsonView::Object(members(entries@)),
    }
}

/// What a list of JSON documents holds.
pub open spec fn documents(items: Seq<JsonValue>) -> Seq<JsonView>
    decreases items,
{
    if items.len() == 0 {
        Seq::empty()
    } else {
        documents(items.drop_last()).push(document(items.last()))
    }
}

/// What the members of a JSON object hold.
pub open spec fn members(entries: Seq<JsonMember>) -> Seq<MemberView>
    decreases entries,
{
    if entries.len() == 0 {
        Seq::empty()
    } else {
        members(entries.drop_last()).push(
            MemberView { key: entries.last().key@, value: document(entries.last().value) },
        )
    }
}

pub proof fn lemma_documents(items: Seq<JsonValue>)
    ensures
        documents(items).len() == items.len(),
        forall|i: int| 0 <= i < items.len() ==> #[trigger] documents(items)[i] == items[i]@,
    decreases items.len(),
{
    if items.len() > 0 {
        lemma_documents(items.drop_last());
        assert forall|i: int| 0 <= i < items.len() implies #[trigger] documents(items)[i]
            == items[i]@ by {
            if i < items.len() - 1 {
                assert(documents(items.drop_last())[i] == items.drop_last()[i]@);
            }
        }
    }
}

pub proof fn lemma_members(entries: Seq<JsonMember>)
    ensures
        members(entries).len() == entries.len(),
        forall|i: int| 0 <= i < entries.len() ==> #[trigger] members(entries)[i] == entries[i]@,
    decreases entries.len(),
{
    if entries.len() > 0 {
        lemma_members(entries.drop_last());
        assert forall|i: int| 0 <= i < entries.len() implies #[trigger] members(entries)[i]
            == entries[i]@ by {
            if i < entries.len() - 1 {
                assert(members(entries.drop_last())[i] == entries.drop_last()[i]@);
            }
        }
    }
}

impl Duplicate for JsonValue {
    fn duplicate(&self) -> (copy: Self) {
        self.clone()
    }
}

impl Clone for JsonValue {
    fn clone(&self) -> (copy: Self)
        ensures
            copy@ == self@,
    {
        copy_document(self)
    }
}

fn copy_document(value: &JsonValue) -> (copy: JsonValue)
    ensures
        copy@ == value@,
    decreases value,
{
    match value {
        JsonValue::Null => JsonValue::Null,
        JsonValue::Bool(b) => JsonValue::Bool(*b),
        JsonValue::Number(n) => JsonValue::Number(*n),
        JsonValue::Text(t) => JsonValue::Text(t.clone()),
        JsonValue::Array(items) => {
            let mut out: Vec<JsonValue> = Vec::new();
            let mut i: usize = 0;
            while i < items.len()
                invariant
                    i <= items.len(),
                    out.len() == i,
                    value matches JsonValue::Array(all) && all == *items,
                    forall|j: int| 0 <= j < i ==> (#[trigger] out@[j])@ == items@[j]@,
                decreases items.len() - i,
            {
                assert(decreases_to!(value => items@[i as int]));
                out.push(copy_document(&items[i]));
                i = i + 1;
            }
            proof {
                lemma_documents(out@);
                lemma_documents(items@);
                assert(documents(out@) =~= documents(items@));
            }
            JsonValue::Array(out)
        },
        JsonValue::Object(entries) => {
            let mut out: Vec<JsonMember> = Vec::new();
            let mut i: usize = 0;
            while i < entries.len()
                invariant
                    i <= entries.len(),
                    out.len() == i,
                    value matches JsonValue::Object(all) && all == *entries,
                    forall|j: int| 0 <= j < i ==> (#[trigger] out@[j])@ == entries@[j]@,
                decreases entries.len() - i,
            {
                assert(decreases_to!(value => entries@[i as int].value));
                let member = JsonMember {
                    key: entries[i].key.clone(),
                    value: copy_document(&entries[i].value),
                };
                out.push(member);
                i = i + 1;
            }
            proof {
                lemma_members(out@);
                lemma_members(entries@);
                assert(members(out@) =~= members(entries@));
            }
            JsonValue::Object(out)
        },
    }
}

} // verus!
