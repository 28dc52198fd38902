//! The words of which filter expressions are made.
use crate::copying::views;
use crate::effect::ScalarKeyframe;
use crate::text::{decimal, decimal_text, owned};
use crate::time::{least, monus, Duration, MAX_NANOS};
use vstd::prelude::*;

verus! {

broadcast use crate::copying::group_views;

/// A length of time in seconds, in decimal with six digits after the point.
pub uninterp spec fn seconds_in_six_digits(nanos: nat) -> Seq<char>;

/// `Duration::as_secs_f64`, written in decimal with six digits after the point. The
/// text depends on the length alone.
#[verifier::external_body]
fn write_six_digits(whole: u64, nanos: u32) -> (text: String)
    requires
        nanos < 1_000_000_000,
    ensures
        text@ == seconds_in_six_digits((whole * 1_000_000_000 + nanos) as nat),
{
    format!("{:.6}", std::time::Duration::new(whole, nanos).as_secs_f64())
}

/// A length of time in seconds, in decimal with as many digits as it needs.
pub uninterp spec fn seconds_in_full(nanos: nat) -> Seq<char>;

/// `Duration::as_secs_f64`, written in decimal with as many digits as it needs. The
/// text depends on the length alone.
#[verifier::external_body]
fn write_in_full(whole: u64, nanos: u32) -> (text: String)
    requires
        nanos < 1_000_000_000,
    ensures
        text@ == seconds_in_full((whole * 1_000_000_000 + nanos) as nat),
{
    format!("{}", std::time::Duration::new(whole, nanos).as_secs_f64())
}

/// The length with six digits. One past the longest counts as the longest.
pub open spec fn fixed(nanos: int) -> Seq<char> {
    seconds_in_six_digits(least(nanos, MAX_NANOS as int) as nat)
}

/// The length in full. One past the longest counts as the longest.
pub open spec fn full(nanos: int) -> Seq<char> {
    seconds_in_full(least(nanos, MAX_NANOS as int) as nat)
}

/// The length with six digits.
pub fn fixed_text(d: Duration) -> (text: String)
    ensures
        text@ == fixed(d@),
{
    let nanos: u128 = if d.nanos <= MAX_NANOS {
        d.nanos
    } else {
        MAX_NANOS
    };
    let whole: u64 = (nanos / 1_000_000_000) as u64;
    let part: u32 = (nanos % 1_000_000_000) as u32;
    assert(whole * 1_000_000_000 + part == nanos);
    write_six_digits(whole, part)
}

/// The length in full.
pub fn full_text(d: Duration) -> (text: String)
    ensures
        text@ == full(d@),
{
    let nanos: u128 = if d.nanos <= MAX_NANOS {
        d.nanos
    } else {
        MAX_NANOS
    };
    let whole: u64 = (nanos / 1_000_000_000) as u64;
    let part: u32 = (nanos % 1_000_000_000) as u32;
    assert(whole * 1_000_000_000 + part == nanos);
    write_in_full(whole, part)
}

/// A time after (or before) another, with six digits and, where it is before, a minus.
pub open spec fn signed(time: int, from: int) -> Seq<char> {
    if time >= from {
        fixed(monus(time, from))
    } else {
        "-"@ + fixed(monus(from, time))
    }
}

/// A time after (or before) another, with six digits.
pub fn signed_text(time: Duration, from: Duration) -> (text: String)
    ensures
        text@ == signed(time@, from@),
{
    if time.nanos >= from.nanos {
        fixed_text(time.saturating_sub(from))
    } else {
        let mut text = owned("-");
        text.append(fixed_text(from.saturating_sub(time)).as_str());
        text
    }
}

/// The number in decimal.
pub fn number_text(n: usize) -> (text: String)
    ensures
        text@ == decimal(n as int),
{
    decimal_text(n as u64)
}

/// A keyframe with its value in words.
#[derive(Debug)]
pub struct KeyWord {
    pub time: Duration,
    pub value: String,
}

/// What a keyframe says.
pub ghost struct KeyWordView {
    pub time: int,
    pub value: Seq<char>,
}

impl View for KeyWord {
    type V = KeyWordView;

    open spec fn view(&self) -> KeyWordView {
        KeyWordView { time: self.time@, value: self.value@ }
    }
}

/// The shortest time between two keyframes that is divided by.
pub const SHORTEST_SPAN: u128 = 1000;

/// The line between two values.
pub open spec fn key_segment(a: Seq<char>, b: Seq<char>, t: Seq<char>, from: Seq<char>, span: Seq<char>) -> Seq<char> {
    a
        + " + ("@
        + b
        + "-"@
        + a
        + ")*("@
        + t
        + "-"@
        + from
        + ")/"@
        + span
}

pub fn key_segment_text(a: &str, b: &str, t: &str, from: &str, span: &str) -> (text: String)
    ensures
        text@ == key_segment(a@, b@, t@, from@, span@),
{
    let mut text = owned(a);
    text.append(" + (");
    text.append(b);
    text.append("-");
    text.append(a);
    text.append(")*(");
    text.append(t);
    text.append("-");
    text.append(from);
    text.append(")/");
    text.append(span);
    text
}

/// One expression before a time and another from it on.
pub open spec fn if_before(t: Seq<char>, time: Seq<char>, x: Seq<char>, y: Seq<char>) -> Seq<char> {
    "if(lt("@
        + t
        + ","@
        + time
        + "),"@
        + x
        + ","@
        + y
        + ")"@
}

pub fn if_before_text(t: &str, time: &str, x: &str, y: &str) -> (text: String)
    ensures
        text@ == if_before(t@, time@, x@, y@),
{
    let mut text = owned("if(lt(");
    text.append(t);
    text.append(",");
    text.append(time);
    text.append("),");
    text.append(x);
    text.append(",");
    text.append(y);
    text.append(")");
    text
}

/// How long it is from one time to a later one, at least the shortest span.
pub open spec fn span(from: int, to: int) -> int {
    let d = monus(to, from);
    if d < SHORTEST_SPAN {
        SHORTEST_SPAN as int
    } else {
        d
    }
}

/// The value from the keyframe with the given index on.
pub open spec fn keys_from(keys: Seq<KeyWordView>, i: int, t: Seq<char>) -> Seq<char>
    decreases keys.len() - i,
{
    if i + 1 >= keys.len() {
        keys.last().value
    } else {
        if_before(
            t,
            fixed(keys[i + 1].time),
            key_segment(
                keys[i].value,
                keys[i + 1].value,
                t,
                fixed(keys[i].time),
                fixed(span(keys[i].time, keys[i + 1].time)),
            ),
            keys_from(keys, i + 1, t),
        )
    }
}

/// The value at the time `t`: the first before the first keyframe, the last from the
/// last one on, and a line between two; the fallback where there is none.
pub open spec fn keyframe_expr(keys: Seq<KeyWordView>, fallback: Seq<char>, t: Seq<char>) -> Seq<
    char,
> {
    if keys.len() == 0 {
        fallback
    } else if keys.len() == 1 {
        keys[0].value
    } else {
        if_before(t, fixed(keys[0].time), keys[0].value, keys_from(keys, 0, t))
    }
}

/// Keyframes with their values in words.
pub open spec fn worded(keys: Seq<ScalarKeyframe>, values: Seq<Seq<char>>) -> Seq<KeyWordView> {
    Seq::new(keys.len(), |i: int| KeyWordView { time: keys[i].time@, value: values[i] })
}

fn word_keys(keys: &Vec<ScalarKeyframe>, values: &Vec<String>) -> (words: Vec<KeyWord>)
    requires
        values.len() == keys.len(),
    ensures
        views(words@) == worded(keys@, views(values@)),
{
    let mut words: Vec<KeyWord> = Vec::new();
    let mut i: usize = 0;
    while i < keys.len()
        invariant
            i <= keys.len(),
            values.len() == keys.len(),
            words.len() == i,
            forall|j: int|
                0 <= j < i ==> (#[trigger] words@[j])@ == worded(keys@, views(values@))[j],
        decreases keys.len() - i,
    {
        words.push(KeyWord { time: keys[i].time, value: owned(values[i].as_str()) });
        i += 1;
    }
    assert(views(words@) =~= worded(keys@, views(values@)));
    words
}

/// The value of a clip's keyframes at the time `t`, with each value in words.
pub fn build_keyframe_expr(
    keys: &Vec<ScalarKeyframe>,
    values: &Vec<String>,
    fallback: &str,
    t: &str,
) -> (expr: String)
    requires
        values.len() == keys.len(),
    ensures
        expr@ == keyframe_expr(worded(keys@, views(values@)), fallback@, t@),
{
    key_words_expr(&word_keys(keys, values), fallback, t)
}

/// The value at the time `t`.
fn key_words_expr(keys: &Vec<KeyWord>, fallback: &str, t: &str) -> (expr: String)
    ensures
        expr@ == keyframe_expr(views(keys@), fallback@, t@),
{
    if keys.len() == 0 {
        return owned(fallback);
    }
    if keys.len() == 1 {
        return owned(keys[0].value.as_str());
    }
    let mut i: usize = keys.len() - 1;
    let mut expr = owned(keys[i].value.as_str());
    assert(views(keys@).last() == keys@.last()@);
    while i > 0
        invariant
            i < keys.len(),
            expr@ == keys_from(views(keys@), i as int, t@),
        decreases i,
    {
        i -= 1;
        let a = &keys[i];
        let b = &keys[i + 1];
        let mut length = b.time.saturating_sub(a.time);
        if length.nanos < SHORTEST_SPAN {
            length = Duration { nanos: SHORTEST_SPAN };
        }
        let segment = key_segment_text(
            a.value.as_str(),
            b.value.as_str(),
            t,
            fixed_text(a.time).as_str(),
            fixed_text(length).as_str(),
        );
        expr = if_before_text(t, fixed_text(b.time).as_str(), segment.as_str(), expr.as_str());
    }
    if_before_text(t, fixed_text(keys[0].time).as_str(), keys[0].value.as_str(), expr.as_str())
}

/// The smaller of two.
pub open spec fn min_of(a: Seq<char>, b: Seq<char>) -> Seq<char> {
    "min("@
        + a
        + ", "@
        + b
        + ")"@
}

pub fn min_of_text(a: &str, b: &str) -> (text: String)
    ensures
        text@ == min_of(a@, b@),
{
    let mut text = owned("min(");
    text.append(a);
    text.append(", ");
    text.append(b);
    text.append(")");
    text
}

/// The larger of two.
pub open spec fn max_of(a: Seq<char>, b: Seq<char>) -> Seq<char> {
    "max("@
        + a
        + ", "@
        + b
        + ")"@
}

pub fn max_of_text(a: &str, b: &str) -> (text: String)
    ensures
        text@ == max_of(a@, b@),
{
    let mut text = owned("max(");
    text.append(a);
    text.append(", ");
    text.append(b);
    text.append(")");
    text
}

/// The product of two.
pub open spec fn product(a: Seq<char>, b: Seq<char>) -> Seq<char> {
    "("@
        + a
        + ")*("@
        + b
        + ")"@
}

pub fn product_text(a: &str, b: &str) -> (text: String)
    ensures
        text@ == product(a@, b@),
{
    let mut text = owned("(");
    text.append(a);
    text.append(")*(");
    text.append(b);
    text.append(")");
    text
}

/// The sum of two.
pub open spec fn sum(a: Seq<char>, b: Seq<char>) -> Seq<char> {
    "("@
        + a
        + ")+("@
        + b
        + ")"@
}

pub fn sum_text(a: &str, b: &str) -> (text: String)
    ensures
        text@ == sum(a@, b@),
{
    let mut text = owned("(");
    text.append(a);
    text.append(")+(");
    text.append(b);
    text.append(")");
    text
}

/// The value, brought between 0 and 1.
pub open spec fn share_of(x: Seq<char>) -> Seq<char> {
    "clip("@
        + x
        + ",0,1)"@
}

pub fn share_of_text(x: &str) -> (text: String)
    ensures
        text@ == share_of(x@),
{
    let mut text = owned("clip(");
    text.append(x);
    text.append(",0,1)");
    text
}

/// Whether a time is between two others.
pub open spec fn between(t: Seq<char>, from: Seq<char>, to: Seq<char>) -> Seq<char> {
    "between("@
        + t
        + ","@
        + from
        + ","@
        + to
        + ")"@
}

pub fn between_text(t: &str, from: &str, to: &str) -> (text: String)
    ensures
        text@ == between(t@, from@, to@),
{
    let mut text = owned("between(");
    text.append(t);
    text.append(",");
    text.append(from);
    text.append(",");
    text.append(to);
    text.append(")");
    text
}

/// The smallest of the expressions from the index on, behind what came before.
pub open spec fn min_from(terms: Seq<Seq<char>>, i: int) -> Seq<char>
    decreases i,
{
    if i <= 0 {
        terms[0]
    } else {
        min_of(min_from(terms, i - 1), terms[i])
    }
}

/// The smallest of the expressions.
pub open spec fn min_all(terms: Seq<Seq<char>>) -> Seq<char> {
    min_from(terms, terms.len() - 1)
}

/// The largest of the expressions up to the index.
pub open spec fn max_from(terms: Seq<Seq<char>>, i: int) -> Seq<char>
    decreases i,
{
    if i <= 0 {
        terms[0]
    } else {
        max_of(max_from(terms, i - 1), terms[i])
    }
}

/// The largest of the expressions.
pub open spec fn max_all(terms: Seq<Seq<char>>) -> Seq<char> {
    max_from(terms, terms.len() - 1)
}

pub fn min_all_text(terms: &Vec<String>) -> (text: String)
    requires
        terms.len() > 0,
    ensures
        text@ == min_all(views(terms@)),
{
    let mut text = owned(terms[0].as_str());
    let mut i: usize = 1;
    while i < terms.len()
        invariant
            1 <= i <= terms.len(),
            text@ == min_from(views(terms@), i - 1),
        decreases terms.len() - i,
    {
        text = min_of_text(text.as_str(), terms[i].as_str());
        i += 1;
    }
    text
}

pub fn max_all_text(terms: &Vec<String>) -> (text: String)
    requires
        terms.len() > 0,
    ensures
        text@ == max_all(views(terms@)),
{
    let mut text = owned(terms[0].as_str());
    let mut i: usize = 1;
    while i < terms.len()
        invariant
            1 <= i <= terms.len(),
            text@ == max_from(views(terms@), i - 1),
        decreases terms.len() - i,
    {
        text = max_of_text(text.as_str(), terms[i].as_str());
        i += 1;
    }
    text
}

} // verus!
