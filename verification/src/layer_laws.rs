//! What edits of layers change.
use crate::effect::ScalarKeyframe;
use crate::layer::LayerEffectClipView;
use crate::layer_edits::{
    largest_shown, layer_place, smallest_shown, strongest_overlay, LayerChannel, LayerEditView,
};
use crate::lists::lemma_first_is;
use crate::order::ordered_is_sorted_permutation;
use crate::scalar::Scalar;
use crate::state::{saving_keeps_all_else, StateView};
use crate::time::MAX_NANOS;
use crate::tracks::TimelineView;
use vstd::prelude::*;

verus! {

/// The value of an adjustment that changes nothing.
pub open spec fn nothing(channel: LayerChannel) -> u32 {
    match channel {
        LayerChannel::Brightness | LayerChannel::Blur => 0,
        LayerChannel::Contrast | LayerChannel::Saturation => 0x3f80_0000,
    }
}

/// A value brought into the range of an adjustment: brightness from -1 to 1, contrast and saturation
/// from 0 to 2, and blur from 0 to 64.
pub open spec fn ranged(channel: LayerChannel, s: Scalar) -> Scalar {
    match channel {
        LayerChannel::Brightness => s.clamped(
            Scalar { bits: 0xbf80_0000 },
            Scalar { bits: 0x3f80_0000 },
        ),
        LayerChannel::Contrast | LayerChannel::Saturation => s.clamped(
            Scalar { bits: 0 },
            Scalar { bits: 0x4000_0000 },
        ),
        LayerChannel::Blur => s.clamped(Scalar { bits: 0 }, Scalar { bits: 0x4280_0000 }),
    }
}

/// An adjustment of a layer: its value, whether it is on, and its keyframes.
pub open spec fn adjustment(l: LayerEffectClipView, channel: LayerChannel) -> (
    Scalar,
    bool,
    Seq<ScalarKeyframe>,
) {
    match channel {
        LayerChannel::Brightness => (l.brightness, l.brightness_enabled, l.brightness_keyframes),
        LayerChannel::Contrast => (l.contrast, l.contrast_enabled, l.contrast_keyframes),
        LayerChannel::Saturation => (l.saturation, l.saturation_enabled, l.saturation_keyframes),
        LayerChannel::Blur => (l.blur_sigma, l.blur_enabled, l.blur_keyframes),
    }
}

/// Whether two layers are the same but for one adjustment.
pub open spec fn same_but(
    a: LayerEffectClipView,
    b: LayerEffectClipView,
    channel: LayerChannel,
) -> bool {
    &&& forall|other: LayerChannel|
        other != channel ==> #[trigger] adjustment(a, other) == adjustment(b, other)
    &&& a.id == b.id && a.start == b.start && a.duration == b.duration && a.track_index
        == b.track_index && a.fade_in == b.fade_in && a.fade_out == b.fade_out
        && a.motionloom_enabled == b.motionloom_enabled && a.motionloom_script
        == b.motionloom_script
}

/// Setting an adjustment of a layer switches it on and gives it the value within its range, if it has
/// no keyframes; it is then what the layer has at every time. The other adjustments stay.
pub proof fn set_adjustment_is_kept(
    l: LayerEffectClipView,
    channel: LayerChannel,
    s: Scalar,
    playhead: int,
    tracks: int,
    t: int,
    on_line: Scalar,
)
    requires
        adjustment(l, channel).2.len() == 0,
    ensures
        ({
            let out = l.edited(LayerEditView::Adjust(channel, s), playhead, tracks);
            &&& adjustment(out, channel).0 == ranged(channel, s)
            &&& adjustment(out, channel).1
            &&& adjustment(out, channel).2.len() == 0
            &&& same_but(out, l, channel)
            &&& out.value_at(channel, t, on_line) == ranged(channel, ranged(channel, s))
        }),
{
    reveal(LayerEffectClipView::edited);
    let p = |k: ScalarKeyframe| crate::keyframes::is_near(k, t, 4_166_667);
    crate::lists::lemma_first(l.keys(channel), p);
    let on = l.with_on(channel, true);
    if let Some(local) = on.local_time(playhead) {
        crate::lists::lemma_first(
            on.keys(channel),
            |k: ScalarKeyframe| crate::keyframes::is_near(k, local, 4_166_667),
        );
    }
}

/// Clearing an adjustment of a layer switches it off, takes its keyframes away and leaves the value
/// that changes nothing. The other adjustments stay.
pub proof fn cleared_adjustment_is_gone(
    l: LayerEffectClipView,
    channel: LayerChannel,
    playhead: int,
    tracks: int,
    t: int,
    on_line: Scalar,
)
    ensures
        ({
            let out = l.edited(LayerEditView::Clear(channel), playhead, tracks);
            &&& adjustment(out, channel).0.bits == nothing(channel)
            &&& !adjustment(out, channel).1
            &&& adjustment(out, channel).2.len() == 0
            &&& same_but(out, l, channel)
            &&& out.value_at(channel, t, on_line).bits == nothing(channel)
        }),
{
    reveal(LayerEffectClipView::edited);
}

/// A layer that is moved starts there, on the track that was named if there is one; one that is given
/// a length has it, from a tenth of a second to a day; and a script is taken without white space
/// around it, and is in use unless it is empty. Nothing else changes.
pub proof fn placed_layer_is_there(
    l: LayerEffectClipView,
    start: int,
    track: Option<usize>,
    length: int,
    script: Seq<char>,
    playhead: int,
    tracks: int,
)
    ensures
        l.edited(LayerEditView::Place { start, track }, playhead, tracks) == (LayerEffectClipView {
            start,
            track_index: if track is Some && track->0 < tracks {
                track->0
            } else {
                l.track_index
            },
            ..l
        }),
        l.edited(LayerEditView::Length(length), playhead, tracks) == (LayerEffectClipView {
            duration: if length < 100_000_000 {
                100_000_000
            } else if length > 86_400_000_000_000 {
                86_400_000_000_000
            } else {
                length
            },
            ..l
        }),
        l.edited(LayerEditView::Script(script), playhead, tracks) == (LayerEffectClipView {
            motionloom_script: crate::text::trimmed(script),
            motionloom_enabled: crate::text::trimmed(script).len() > 0,
            ..l
        }),
{
    reveal(LayerEffectClipView::edited);
}

/// An edit of a layer changes that layer alone.
pub proof fn edit_changes_one_layer(t: TimelineView, id: u64, e: LayerEditView, at: int)
    requires
        0 <= at < t.layer_effect_clips.len(),
        t.layer_effect_clips[at].id == id,
        forall|j: int| 0 <= j < at ==> (#[trigger] t.layer_effect_clips[j]).id != id,
    ensures
        t.with_layer_edit(id, e) == (TimelineView {
            layer_effect_clips: t.layer_effect_clips.update(
                at,
                t.layer_effect_clips[at].edited(e, t.playhead, t.video_tracks.len() as int),
            ),
            ..t
        }),
{
    reveal(TimelineView::with_layer_edit);
    let p = crate::layer_edits::has_layer_id(id);
    assert forall|j: int| 0 <= j < at implies !p(#[trigger] t.layer_effect_clips[j]) by {}
    lemma_first_is(t.layer_effect_clips, p, at);
}

/// A new layer lasts for ten seconds from the start of the timeline, lies on the uppermost video track,
/// which is made if there is none, changes nothing, and is selected. The other layers stay.
pub proof fn new_layer_is_on_top(s: StateView)
    requires
        s.timeline.video_tracks.len() < usize::MAX,
        forall|j: int|
            0 <= j < s.timeline.layer_effect_clips.len() ==> (
            #[trigger] s.timeline.layer_effect_clips[j]).id != s.next_clip_id,
    ensures
        ({
            let after = s.with_new_layer();
            let layers = after.timeline.layer_effect_clips;
            let n = after.timeline.video_tracks.len();
            exists|l: LayerEffectClipView|
                {
                    &&& layers.to_multiset()
                        == #[trigger] s.timeline.layer_effect_clips.to_multiset().insert(l)
                    &&& l.id == s.next_clip_id
                    &&& l.start == 0
                    &&& l.duration == 10_000_000_000
                    &&& n >= 1
                    &&& l.track_index == n - 1
                    &&& forall|channel: LayerChannel|
                        !(#[trigger] adjustment(l, channel)).1 && adjustment(l, channel).0.bits
                            == nothing(channel) && adjustment(l, channel).2.len() == 0
                    &&& !l.motionloom_enabled
                    &&& after.timeline.selected_layer_effect_clip_id == Some(l.id)
                    &&& after.selection.selected_clip_id is None
                }
        }),
{
    broadcast use vstd::seq_lib::group_to_multiset_ensures;

    reveal(StateView::with_new_layer);
    reveal(TimelineView::with_layer);
    saving_keeps_all_else(s, false);
    let u = if s.timeline.video_tracks.len() == 0 {
        s.video_track_added()
    } else {
        s.saved(false)
    };
    let l = crate::layer_edits::new_layer(
        u.next_clip_id,
        (u.timeline.video_tracks.len() - 1) as usize,
    );
    let all = u.timeline.layer_effect_clips.push(l);
    let rank = |x: LayerEffectClipView| crate::layer_edits::layer_rank(x);
    ordered_is_sorted_permutation(all, rank);
    let out = crate::layer_edits::layers_in_order(all);
    assert(all.to_multiset() =~= u.timeline.layer_effect_clips.to_multiset().insert(l));
    assert(all[all.len() - 1] == l);
    assert(all.contains(l));
    assert(all.to_multiset().count(l) > 0);
    assert(out.contains(l));
    let k = choose|k: int| 0 <= k < out.len() && out[k] == l;
    let p = crate::layer_edits::has_layer_id(l.id);
    crate::lists::lemma_first(out, p);
    assert(p(out[k]));
    assert(layer_place(out, l.id) < out.len());
    let after = s.with_new_layer();
    assert(after.timeline.layer_effect_clips == out);
    assert(out.to_multiset() == s.timeline.layer_effect_clips.to_multiset().insert(l));
}

// ---------------------------------------------------------------------------
// Layers that are shown together
// ---------------------------------------------------------------------------

/// Whether a number is at least 0.
pub open spec fn is_positive(s: Scalar) -> bool {
    s.bits <= 0x7f80_0000
}

/// Whether a layer is shown at a time and has a value.
pub open spec fn counts(
    layers: Seq<LayerEffectClipView>,
    values: Seq<Option<Scalar>>,
    t: int,
    i: int,
) -> bool {
    &&& layers[i].start <= t < layers[i].start + layers[i].duration
    &&& values[i] is Some
}

/// Of the values of layers that are shown at a time the largest counts, if none is below 0: it is no
/// less than that of any of them and than the one to begin with, and is one of these.
pub proof fn largest_shown_value_counts(
    layers: Seq<LayerEffectClipView>,
    values: Seq<Option<Scalar>>,
    t: int,
    n: int,
    before: Option<Scalar>,
)
    requires
        0 <= n <= layers.len(),
        values.len() == layers.len(),
        t < MAX_NANOS,
        forall|i: int| 0 <= i < n ==> (#[trigger] values[i] matches Some(v) ==> is_positive(v)),
        before matches Some(b) ==> is_positive(b),
    ensures
        match largest_shown(layers, values, t, n, before) {
            Some(s) => {
                &&& is_positive(s)
                &&& before matches Some(b) ==> b.bits <= s.bits
                &&& forall|i: int|
                    0 <= i < n && #[trigger] counts(layers, values, t, i) ==> values[i]->0.bits
                        <= s.bits
                &&& before == Some(s) || exists|i: int|
                    0 <= i < n && #[trigger] counts(layers, values, t, i) && values[i] == Some(s)
            },
            None => before is None && forall|i: int|
                0 <= i < n ==> !#[trigger] counts(layers, values, t, i),
        },
    decreases n,
{
    if n > 0 {
        largest_shown_value_counts(layers, values, t, n - 1, before);
        assert(values[n - 1] matches Some(v) ==> is_positive(v));
        assert(counts(layers, values, t, n - 1) == (layers[n - 1].is_shown(t) && values[n
            - 1] is Some));
    }
}

/// Of the opacities of layers that are shown at a time the smallest counts, if none is below 0, and
/// none counts for more than 1: it is no more than any of them and than 1, and is one of these.
pub proof fn smallest_shown_value_counts(
    layers: Seq<LayerEffectClipView>,
    values: Seq<Option<Scalar>>,
    t: int,
    n: int,
)
    requires
        0 <= n <= layers.len(),
        values.len() == layers.len(),
        t < MAX_NANOS,
        forall|i: int| 0 <= i < n ==> (#[trigger] values[i] matches Some(v) ==> is_positive(v)),
    ensures
        ({
            let s = smallest_shown(layers, values, t, n);
            &&& s.bits <= 0x3f80_0000
            &&& forall|i: int|
                0 <= i < n && #[trigger] counts(layers, values, t, i) ==> s.bits
                    <= values[i]->0.bits
            &&& s.bits == 0x3f80_0000 || exists|i: int|
                0 <= i < n && #[trigger] counts(layers, values, t, i) && values[i] == Some(s)
        }),
    decreases n,
{
    if n > 0 {
        smallest_shown_value_counts(layers, values, t, n - 1);
        assert(values[n - 1] matches Some(v) ==> is_positive(v));
        assert(counts(layers, values, t, n - 1) == (layers[n - 1].is_shown(t) && values[n
            - 1] is Some));
    }
}

/// Whether a layer is shown at a time and lays a colour over the picture.
pub open spec fn overlays_then(
    layers: Seq<LayerEffectClipView>,
    overlays: Seq<Option<(Scalar, Scalar, Scalar, Scalar)>>,
    t: int,
    i: int,
) -> bool {
    &&& layers[i].start <= t < layers[i].start + layers[i].duration
    &&& overlays[i] is Some
}

/// Of the colours that layers lay over the picture at a time the strongest counts: none is stronger,
/// and it is one of theirs, or none where none has any strength.
pub proof fn strongest_shown_overlay_counts(
    layers: Seq<LayerEffectClipView>,
    overlays: Seq<Option<(Scalar, Scalar, Scalar, Scalar)>>,
    t: int,
    n: int,
)
    requires
        0 <= n <= layers.len(),
        overlays.len() == layers.len(),
        t < MAX_NANOS,
        forall|i: int|
            0 <= i < n ==> (#[trigger] overlays[i] matches Some(o) ==> is_positive(o.3)),
    ensures
        ({
            let s = strongest_overlay(layers, overlays, t, n);
            &&& is_positive(s.3)
            &&& forall|i: int|
                0 <= i < n && #[trigger] overlays_then(layers, overlays, t, i)
                    ==> (overlays[i]->0).3.bits <= s.3.bits
            &&& s.3.bits == 0 || exists|i: int|
                0 <= i < n && #[trigger] overlays_then(layers, overlays, t, i) && overlays[i]
                    == Some(s)
        }),
    decreases n,
{
    if n > 0 {
        strongest_shown_overlay_counts(layers, overlays, t, n - 1);
        assert(overlays[n - 1] matches Some(o) ==> is_positive(o.3));
        assert(overlays_then(layers, overlays, t, n - 1) == (layers[n - 1].is_shown(t)
            && overlays[n - 1] is Some));
    }
}

} // verus!
