//! JSON documents as texts.
use crate::copying::optional;
use crate::decimals::{exact_decimal, write_exact};
use crate::double::{real_magnitude, REAL_INFINITE, REAL_SIGN};
use crate::json::{
    documents, lemma_documents, lemma_members, members, JsonNumber, JsonValue, JsonView,
};
use crate::text::owned;
use serde_json::{Number, Value};
use vstd::prelude::*;

verus! {

/// A document that is to be written: numbers that are not whole are given in decimal, with all
/// their digits.
#[derive(Debug)]
pub enum Writable {
    Null,
    Bool(bool),
    Whole(u64),
    Negative(i64),
    Decimal(String),
    Text(String),
    Array(Vec<Writable>),
    Object(Vec<WritableMember>),
}

/// A key of an object that is to be written, with its value.
#[derive(Debug)]
pub struct WritableMember {
    pub key: String,
    pub value: Writable,
}

/// What a document that is to be written holds.
pub ghost enum WritableView {
    Null,
    Bool(bool),
    Whole(u64),
    Negative(i64),
    Decimal(Seq<char>),
    Text(Seq<char>),
    Array(Seq<WritableView>),
    Object(Seq<(Seq<char>, WritableView)>),
}

impl View for Writable {
    type V = WritableView;

    open spec fn view(&self) -> WritableView {
        writable(*self)
    }
}

/// What a document that is to be written holds.
pub open spec fn writable(w: Writable) -> WritableView
    decreases w,
{
    match w {
        Writable::Null => WritableView::Null,
        Writable::Bool(b) => WritableView::Bool(b),
        Writable::Whole(n) => WritableView::Whole(n),
        Writable::Negative(n) => WritableView::Negative(n),
        Writable::Decimal(t) => WritableView::Decimal(t@),
        Writable::Text(t) => WritableView::Text(t@),
        Writable::Array(items) => WritableView::Array(writables(items@)),
        Writable::Object(entries) => WritableView::Object(writable_members(entries@)),
    }
}

/// What a list of documents that are to be written holds.
pub open spec fn writables(items: Seq<Writable>) -> Seq<WritableView>
    decreases items,
{
    if items.len() == 0 {
        Seq::empty()
    } else {
        writables(items.drop_last()).push(writable(items.last()))
    }
}

/// What the members of an object that is to be written hold.
pub open spec fn writable_members(entries: Seq<WritableMember>) -> Seq<(Seq<char>, WritableView)>
    decreases entries,
{
    if entries.len() == 0 {
        Seq::empty()
    } else {
        writable_members(entries.drop_last()).push(
            (entries.last().key@, writable(entries.last().value)),
        )
    }
}

/// A document as it is to be written. A number that is not finite is not one in JSON.
pub open spec fn written(v: JsonView) -> WritableView
    decreases v,
{
    match v {
        JsonView::Null => WritableView::Null,
        JsonView::Bool(b) => WritableView::Bool(b),
        JsonView::Number(JsonNumber::Unsigned(n)) => WritableView::Whole(n),
        JsonView::Number(JsonNumber::Negative(n)) => WritableView::Negative(n),
        JsonView::Number(JsonNumber::Double(bits)) => if real_magnitude(bits) < REAL_INFINITE {
            WritableView::Decimal(exact_decimal(bits))
        } else {
            WritableView::Null
        },
        JsonView::Text(t) => WritableView::Text(t),
        JsonView::Array(items) => WritableView::Array(
            Seq::new(
                items.len(),
                |i: int|
                    if 0 <= i < items.len() {
                        written(items[i])
                    } else {
                        WritableView::Null
                    },
            ),
        ),
        JsonView::Object(o) => WritableView::Object(
            Seq::new(
                o.len(),
                |i: int|
                    if 0 <= i < o.len() {
                        (o[i].key, written(o[i].value))
                    } else {
                        (seq![], WritableView::Null)
                    },
            ),
        ),
    }
}

fn make_number(n: JsonNumber) -> (w: Writable)
    ensures
        w@ == written(JsonView::Number(n)),
{
    match n {
        JsonNumber::Unsigned(n) => Writable::Whole(n),
        JsonNumber::Negative(n) => Writable::Negative(n),
        JsonNumber::Double(bits) => {
            let m: u64 = if bits >= REAL_SIGN {
                bits - REAL_SIGN
            } else {
                bits
            };
            if m < REAL_INFINITE {
                Writable::Decimal(write_exact(bits))
            } else {
                Writable::Null
            }
        },
    }
}

/// A document as it is to be written.
pub fn make_writable(v: &JsonValue) -> (w: Writable)
    ensures
        w@ == written(v@),
    decreases v,
{
    match v {
        JsonValue::Null => Writable::Null,
        JsonValue::Bool(b) => Writable::Bool(*b),
        JsonValue::Number(n) => make_number(*n),
        JsonValue::Text(t) => Writable::Text(owned(t.as_str())),
        JsonValue::Array(items) => {
            let mut out: Vec<Writable> = Vec::new();
            let mut i: usize = 0;
            proof {
                lemma_documents(items@);
            }
            let ghost all = documents(items@);
            while i < items.len()
                invariant
                    i <= items.len(),
                    v matches JsonValue::Array(list) && list == *items,
                    all.len() == items.len(),
                    forall|j: int| 0 <= j < all.len() ==> #[trigger] all[j] == items@[j]@,
                    writables(out@) == Seq::new(i as nat, |j: int| written(all[j])),
                decreases items.len() - i,
            {
                assert(decreases_to!(v => items@[i as int]));
                let ghost before = out@;
                out.push(make_writable(&items[i]));
                proof {
                    assert(out@.drop_last() =~= before);
                    assert(writables(out@) =~= Seq::new((i + 1) as nat, |j: int| written(all[j])));
                }
                i += 1;
            }
            let w = Writable::Array(out);
            proof {
                assert(v@ == JsonView::Array(all));
                assert(written(v@)->Array_0 =~= writables(out@));
                assert(w@ == WritableView::Array(writables(out@)));
            }
            w
        },
        JsonValue::Object(entries) => {
            let mut out: Vec<WritableMember> = Vec::new();
            let mut i: usize = 0;
            proof {
                lemma_members(entries@);
            }
            let ghost all = members(entries@);
            while i < entries.len()
                invariant
                    i <= entries.len(),
                    v matches JsonValue::Object(list) && list == *entries,
                    all.len() == entries.len(),
                    forall|j: int| 0 <= j < all.len() ==> #[trigger] all[j] == entries@[j]@,
                    writable_members(out@) == Seq::new(
                        i as nat,
                        |j: int| (all[j].key, written(all[j].value)),
                    ),
                decreases entries.len() - i,
            {
                assert(decreases_to!(v => entries@[i as int].value));
                let ghost before = out@;
                let value = make_writable(&entries[i].value);
                out.push(WritableMember { key: owned(entries[i].key.as_str()), value });
                proof {
                    assert(out@.drop_last() =~= before);
                    assert(all[i as int] == entries@[i as int]@);
                    assert(writable_members(out@) =~= Seq::new(
                        (i + 1) as nat,
                        |j: int| (all[j].key, written(all[j].value)),
                    ));
                }
                i += 1;
            }
            let w = Writable::Object(out);
            proof {
                assert(v@ == JsonView::Object(all));
                assert(written(v@)->Object_0 =~= writable_members(out@));
                assert(w@ == WritableView::Object(writable_members(out@)));
            }
            w
        },
    }
}

// ---------------------------------------------------------------------------
// Texts
// ---------------------------------------------------------------------------

/// A document as a text of several lines, if it can be written.
pub uninterp spec fn text_in_lines(doc: WritableView) -> Option<Seq<char>>;

/// A document as a text of one line.
pub uninterp spec fn text_in_one_line(doc: WritableView) -> Seq<char>;

/// A document as a `serde_json::Value`, part by part: a number in decimal as `str::parse` reads it
/// and `Number::from_f64` holds it. Nothing is claimed of the result.
#[verifier::external_body]
fn into_value(doc: Writable) -> (value: Value) {
    match doc {
        Writable::Null => Value::Null,
        Writable::Bool(b) => Value::Bool(b),
        Writable::Whole(n) => Value::from(n),
        Writable::Negative(n) => Value::from(n),
        Writable::Decimal(t) => Value::from(Number::from_f64(t.parse().unwrap_or_default())),
        Writable::Text(t) => Value::String(t),
        Writable::Array(a) => Value::Array(a.into_iter().map(into_value).collect()),
        Writable::Object(o) => Value::Object(
            o.into_iter().map(|m| (m.key, into_value(m.value))).collect(),
        ),
    }
}

/// `serde_json::to_string_pretty` of a `serde_json::Value`: the document as a text of several
/// lines. It depends on the document alone. That the text is read as the same document is not said:
/// a number that is not whole may be read as one next to it, unless `serde_json` is built to read
/// them exactly.
#[verifier::external_body]
fn print_in_lines(doc: Writable) -> (text: Option<String>)
    ensures
        optional(text) == text_in_lines(doc@),
{
    serde_json::to_string_pretty(&into_value(doc)).ok()
}

/// `serde_json::Value` as it is displayed: the document as a text of one line. It depends on the
/// document alone.
#[verifier::external_body]
fn print_in_one_line(doc: Writable) -> (text: String)
    ensures
        text@ == text_in_one_line(doc@),
{
    into_value(doc).to_string()
}

/// A document as a text of several lines.
pub fn write_in_lines(v: &JsonValue) -> (text: Option<String>)
    ensures
        optional(text) == text_in_lines(written(v@)),
{
    print_in_lines(make_writable(v))
}

/// A document as a text of one line.
pub fn write_in_one_line(v: &JsonValue) -> (text: String)
    ensures
        text@ == text_in_one_line(written(v@)),
{
    print_in_one_line(make_writable(v))
}

} // verus!
