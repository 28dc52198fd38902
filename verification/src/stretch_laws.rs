//! Where marked stretches are after an edit.
use crate::json::JsonView;
use crate::json_edit::{keys_differ, lookup, put, text_at};
use crate::lists::lemma_first_is;
use crate::order::{in_order, ordered_is_sorted_permutation};
use crate::removal::semantic_place;
use crate::semantic::{json_seconds, SemanticEditView};
use crate::semantic_laws::synced_schema_tells_the_stretch;
use crate::state::{saving_keeps_all_else, StateView};
use crate::text::trimmed;
use crate::tracks::{SemanticClipView, TimelineView};
use vstd::prelude::*;

verus! {

/// Whether stretches are others with one more, in order.
pub open spec fn is_stretch_added(
    before: Seq<SemanticClipView>,
    after: Seq<SemanticClipView>,
    c: SemanticClipView,
) -> bool {
    &&& after.to_multiset() == before.to_multiset().insert(c)
    &&& in_order(after, |x: SemanticClipView| x.start)
}

proof fn lemma_stretch_added(before: Seq<SemanticClipView>, c: SemanticClipView)
    ensures
        is_stretch_added(before, crate::semantic::semantics_by_start(before.push(c)), c),
        semantic_place(crate::semantic::semantics_by_start(before.push(c)), c.id)
            < before.len() + 1,
        crate::semantic::semantics_by_start(before.push(c)).len() == before.len() + 1,
{
    broadcast use vstd::seq_lib::group_to_multiset_ensures;

    let all = before.push(c);
    let out = crate::semantic::semantics_by_start(all);
    ordered_is_sorted_permutation(all, |x: SemanticClipView| x.start);
    assert(all.to_multiset() =~= before.to_multiset().insert(c));
    assert(all[all.len() - 1] == c);
    assert(all.contains(c));
    assert(all.to_multiset().count(c) > 0);
    assert(out.contains(c));
    let k = choose|k: int| 0 <= k < out.len() && out[k] == c;
    let p = |x: SemanticClipView| x.id == c.id;
    crate::lists::lemma_first(out, p);
    assert(p(out[k]));
}

/// A stretch that is marked covers its time, is for supporting content, and is selected; the mark is
/// gone.
pub proof fn marked_stretch_is_there(s: StateView, start: int, duration: int, notice: Seq<char>)
    ensures
        ({
            let after = s.with_new_semantic(start, duration, notice);
            &&& exists|c: SemanticClipView|
                #[trigger] is_stretch_added(
                    s.timeline.semantic_clips,
                    after.timeline.semantic_clips,
                    c,
                ) && c.id == s.next_clip_id && c.start == start && c.duration == duration
                    && c.semantic_type == "content_support"@ && c.label == "semantic"@
            &&& after.timeline.selected_semantic_clip_id == Some(s.next_clip_id)
            &&& after.timeline.semantic_mark_start is None
            &&& after.selection.selected_clip_id is None
            &&& after.ui_notice == Some(notice)
            &&& after.timeline.v1_clips == s.timeline.v1_clips
        }),
{
    reveal(StateView::with_new_semantic);
    reveal(TimelineView::with_semantic);
    saving_keeps_all_else(s, false);
    let c = crate::semantic::new_semantic(
        s.next_clip_id,
        start,
        duration,
        "content_support"@,
        "semantic"@,
    );
    lemma_stretch_added(s.timeline.semantic_clips, c);
}

proof fn lemma_synced(c: SemanticClipView)
    ensures
        c.synced() == (SemanticClipView { prompt_schema: c.synced().prompt_schema, ..c }),
{
    reveal(SemanticClipView::synced);
}

/// A stretch that is put on the timeline covers its time and has its kind and its label, or the usual
/// ones where these are empty; its request says how long it is.
pub proof fn placed_stretch_is_there(
    s: StateView,
    start: int,
    duration: int,
    semantic_type: Seq<char>,
    label: Seq<char>,
    schema: Option<JsonView>,
)
    requires
        schema matches Some(JsonView::Object(o)) ==> keys_differ(o),
    ensures
        ({
            let after = s.with_placed_semantic(start, duration, semantic_type, label, schema);
            exists|c: SemanticClipView|
                {
                    &&& #[trigger] is_stretch_added(
                        s.timeline.semantic_clips,
                        after.timeline.semantic_clips,
                        c,
                    )
                    &&& c.id == s.next_clip_id
                    &&& c.start == start
                    &&& c.duration == duration
                    &&& c.semantic_type == if trimmed(semantic_type).len() == 0 {
                        "content_support"@
                    } else {
                        semantic_type
                    }
                    &&& c.label == if trimmed(label).len() == 0 {
                        "semantic"@
                    } else {
                        label
                    }
                    &&& schema is Some ==> (c.prompt_schema matches JsonView::Object(o) && lookup(
                        o,
                        "duration_sec"@,
                    ) == Some(JsonView::Number(json_seconds(duration))))
                }
        }),
{
    reveal(StateView::with_placed_semantic);
    reveal(TimelineView::with_semantic);
    saving_keeps_all_else(s, false);
    let c = crate::semantic::placed_semantic(
        s.next_clip_id,
        start,
        duration,
        semantic_type,
        label,
        schema,
    );
    let plain = crate::semantic::new_semantic(
        s.next_clip_id,
        start,
        duration,
        crate::semantic::filled_or(semantic_type, "content_support"@),
        crate::semantic::filled_or(label, "semantic"@),
    );
    lemma_synced(plain);
    if let Some(o) = schema {
        lemma_synced(SemanticClipView { prompt_schema: o, ..plain });
        synced_schema_tells_the_stretch(SemanticClipView { prompt_schema: o, ..plain });
    }
    lemma_stretch_added(s.timeline.semantic_clips, c);
    let after = s.with_placed_semantic(start, duration, semantic_type, label, schema);
    assert(is_stretch_added(s.timeline.semantic_clips, after.timeline.semantic_clips, c));
}

/// A copy of a stretch covers as long a time from where it was put, is for the same, and is selected.
pub proof fn copied_stretch_is_there(s: StateView, at: int, new_start: int)
    requires
        0 <= at < s.timeline.semantic_clips.len(),
    ensures
        ({
            let after = s.semantic_duplicated(at, new_start);
            let base = s.timeline.semantic_clips[at];
            &&& exists|c: SemanticClipView|
                #[trigger] is_stretch_added(
                    s.timeline.semantic_clips,
                    after.timeline.semantic_clips,
                    c,
                ) && c.id == s.next_clip_id && c.start == new_start && c.duration == base.duration
                    && c.semantic_type == base.semantic_type && c.label == base.label
            &&& after.timeline.selected_semantic_clip_id == Some(s.next_clip_id)
        }),
{
    reveal(StateView::semantic_duplicated);
    reveal(TimelineView::with_semantic);
    saving_keeps_all_else(s, false);
    let plain = SemanticClipView {
        id: s.next_clip_id,
        start: new_start,
        ..s.timeline.semantic_clips[at]
    };
    let c = plain.synced();
    lemma_synced(plain);
    lemma_stretch_added(s.timeline.semantic_clips, c);
    let after = s.semantic_duplicated(at, new_start);
    assert(is_stretch_added(s.timeline.semantic_clips, after.timeline.semantic_clips, c));
}

/// A stretch that is moved starts there, one that is given a length has it, for a millisecond at
/// least, and one that is given a label or a kind has it. The rest of the stretch stays, and so do the
/// other stretches.
pub proof fn edited_stretch_is_changed(t: TimelineView, at: int, x: int, text: Seq<char>)
    requires
        0 <= at < t.semantic_clips.len(),
        forall|j: int|
            0 <= j < at ==> (#[trigger] t.semantic_clips[j]).id != t.semantic_clips[at].id,
    ensures
        ({
            let c = t.semantic_clips[at];
            let after = |e: SemanticEditView| t.with_semantic_edit(c.id, e).semantic_clips;
            let same = |d: SemanticClipView, e: SemanticClipView|
                d == (SemanticClipView { prompt_schema: d.prompt_schema, ..e });
            let moved = after(SemanticEditView::Start(x));
            let sized = after(SemanticEditView::Length(x));
            let named = after(SemanticEditView::Label(text));
            let kinds = after(SemanticEditView::Kind(text));
            &&& same(moved[at], SemanticClipView { start: x, ..c })
            &&& same(
                sized[at],
                SemanticClipView {
                    duration: if x < 1_000_000 {
                        1_000_000
                    } else {
                        x
                    },
                    ..c
                },
            )
            &&& same(named[at], SemanticClipView { label: text, ..c })
            &&& same(kinds[at], SemanticClipView { semantic_type: text, ..c })
            &&& moved == t.semantic_clips.update(at, moved[at])
            &&& sized == t.semantic_clips.update(at, sized[at])
            &&& named == t.semantic_clips.update(at, named[at])
            &&& kinds == t.semantic_clips.update(at, kinds[at])
        }),
{
    reveal(TimelineView::with_semantic_edit);
    reveal(SemanticClipView::edited);
    reveal(SemanticClipView::synced);
    let id = t.semantic_clips[at].id;
    let p = |c: SemanticClipView| c.id == id;
    assert forall|j: int| 0 <= j < at implies !p(#[trigger] t.semantic_clips[j]) by {}
    lemma_first_is(t.semantic_clips, p, at);
}

/// A request from outside that says no length leaves the stretch as long as it was; one that says a
/// whole number of seconds, as long as can be counted without loss, makes it that long. One that says
/// what it is for makes the stretch be for that. Its time and its name stay.
pub proof fn request_changes_the_stretch(c: SemanticClipView, schema: JsonView, seconds: u64)
    requires
        schema is Object,
        1 <= seconds < 0x20_0000_0000_0000,
    ensures
        ({
            let after = c.with_request(schema);
            let o = schema.members();
            &&& after.id == c.id && after.start == c.start && after.label == c.label
            &&& lookup(o, "duration_sec"@) is None ==> after.duration == c.duration
            &&& lookup(o, "duration_sec"@) == Some(
                JsonView::Number(crate::json::JsonNumber::Unsigned(seconds)),
            ) ==> after.duration == seconds * 1_000_000_000
            &&& (match text_at(o, "semantic_goal"@) {
                Some(t) => if trimmed(t).len() > 0 {
                    after.semantic_type == trimmed(t)
                } else {
                    after.semantic_type == c.semantic_type
                },
                None => after.semantic_type == c.semantic_type,
            })
        }),
{
    reveal(SemanticClipView::with_request);
    reveal(SemanticClipView::synced);
    lemma_whole_seconds(seconds);
}

/// So many whole seconds are that long.
proof fn lemma_whole_seconds(n: u64)
    requires
        1 <= n < 0x20_0000_0000_0000,
    ensures
        crate::semantic::nanos_said(crate::json::JsonNumber::Unsigned(n)) == Some(
            n * 1_000_000_000,
        ),
{
    let units = (n * vstd::arithmetic::power2::pow2(1074)) as int;
    let r = crate::rounding::number_near(units);
    crate::rounding::lemma_whole(n as int);
}

} // verus!
