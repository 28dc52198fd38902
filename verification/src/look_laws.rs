//! What edits of a clip's look change.
use crate::clip::ClipView;
use crate::clip_effects::{seconds_of, set_effect_is_found, EffectKind};
use crate::effect::{ScalarKeyframe, VideoEffect};
use crate::keyframes::{key_place, keys_with, sampled, span_from, Sample};
use crate::lanes::lemma_lanes_put;
use crate::lists::lemma_first;
use crate::modes::ClipKeyframeChannel;
use crate::order::{ordered_is_sorted_permutation, Timed};
use crate::razor_laws::ascending;
use crate::scalar::Scalar;
use crate::selected::ClipEdit;
use crate::state::{saving_keeps_all_else, StateView};
use crate::time::Duration;
use crate::tracks::TimelineView;
use crate::transition_laws::{is_picture, lemma_picture_lane};
use vstd::prelude::*;

verus! {

// ---------------------------------------------------------------------------
// Keyframes
// ---------------------------------------------------------------------------

/// Whether a sample lies between the keyframe at a place and the next one.
pub open spec fn is_span(keys: Seq<ScalarKeyframe>, k: int, t: int, s: Sample) -> bool {
    &&& 0 <= k < keys.len() - 1
    &&& keys[k].time@ <= t <= keys[k + 1].time@
    &&& s == (Sample::Between { from: keys[k], to: keys[k + 1] })
}

proof fn lemma_span(keys: Seq<ScalarKeyframe>, t: int, fallback: Scalar, i: int)
    requires
        ascending(keys),
        0 <= i < keys.len(),
        keys[i].time@ <= t < keys.last().time@,
    ensures
        ({
            let s = span_from(keys, t, fallback, i);
            exists|k: int| i <= k && #[trigger] is_span(keys, k, t, s)
        }),
    decreases keys.len() - i,
{
    let s = span_from(keys, t, fallback, i);
    assert(i + 1 < keys.len());
    if keys[i].time@ <= t <= keys[i + 1].time@ {
        assert(is_span(keys, i, t, s));
    } else {
        lemma_span(keys, t, fallback, i + 1);
        let k = choose|k: int| i + 1 <= k && #[trigger] is_span(keys, k, t, s);
        assert(is_span(keys, k, t, s));
    }
}

/// A value that has keyframes is that of the first up to it, that of the last from it on, and between
/// two of them, which are beside each other, it lies on the line between them; one without keyframes
/// is the one that was set.
pub proof fn sample_lies_between_its_keys(
    keys: Seq<ScalarKeyframe>,
    t: int,
    fallback: Scalar,
)
    requires
        ascending(keys),
    ensures
        match sampled(keys, t, fallback) {
            Sample::At(v) => {
                ||| keys.len() == 0 && v == fallback
                ||| keys.len() > 0 && t <= keys[0].time@ && v == keys[0].value
                ||| keys.len() > 0 && t >= keys.last().time@ && v == keys.last().value
            },
            Sample::Between { .. } => exists|k: int|
                #[trigger] is_span(keys, k, t, sampled(keys, t, fallback)),
        },
{
    if keys.len() > 0 && keys[0].time@ < t < keys.last().time@ {
        lemma_span(keys, t, fallback, 0);
    }
}

/// Whether keyframes are others with one set near a time: where there was one within a thirtieth of a
/// second or so, that one has the value; else there is one more, just there.
pub open spec fn is_key_set(
    before: Seq<ScalarKeyframe>,
    after: Seq<ScalarKeyframe>,
    t: int,
    value: Scalar,
) -> bool {
    if exists|k: int| 0 <= k < before.len() && -33_000_000 <= (#[trigger] before[k]).time@ - t
        <= 33_000_000 {
        exists|k: int|
            {
                &&& 0 <= k < before.len()
                &&& -33_000_000 <= (#[trigger] before[k]).time@ - t <= 33_000_000
                &&& after == before.update(k, ScalarKeyframe { time: before[k].time, value })
            }
    } else {
        exists|key: ScalarKeyframe|
            {
                &&& key.time@ == t
                &&& key.value == value
                &&& after.to_multiset() == #[trigger] before.to_multiset().insert(key)
                &&& forall|i: int, j: int|
                    0 <= i < j < after.len() ==> (#[trigger] after[i]).time@ <= (
                    #[trigger] after[j]).time@
            }
    }
}

proof fn lemma_key_set(keys: Seq<ScalarKeyframe>, t: int, value: Scalar)
    requires
        0 <= t <= crate::time::MAX_NANOS,
    ensures
        is_key_set(keys, keys_with(keys, t, value, 33_000_000), t, value),
{
    broadcast use vstd::seq_lib::group_to_multiset_ensures;

    let p = |k: ScalarKeyframe| crate::keyframes::is_near(k, t, 33_000_000);
    lemma_first(keys, p);
    let at = key_place(keys, t, 33_000_000);
    if at < keys.len() {
        assert(p(keys[at]));
        assert(-33_000_000 <= keys[at].time@ - t <= 33_000_000);
    } else {
        assert forall|k: int| 0 <= k < keys.len() implies !(-33_000_000 <= (
        #[trigger] keys[k]).time@ - t <= 33_000_000) by {
            assert(!p(keys[k]));
        }
        let key = ScalarKeyframe { time: Duration::of(t), value };
        let key_time = |k: ScalarKeyframe| k.at();
        ordered_is_sorted_permutation(keys.push(key), key_time);
        assert(keys.push(key).to_multiset() =~= keys.to_multiset().insert(key));
        let after = keys_with(keys, t, value, 33_000_000);
        assert forall|i: int, j: int| 0 <= i < j < after.len() implies (#[trigger] after[i]).time@
            <= (#[trigger] after[j]).time@ by {
            assert(key_time(after[i]) <= key_time(after[j]));
        }
        assert(key.time@ == t);
    }
}

/// The keyframes of a kind.
pub open spec fn keys_of(c: ClipView, channel: ClipKeyframeChannel) -> Seq<ScalarKeyframe> {
    match channel {
        ClipKeyframeChannel::PosX => c.keyframes.pos_x,
        ClipKeyframeChannel::PosY => c.keyframes.pos_y,
        ClipKeyframeChannel::Scale => c.keyframes.scale,
        ClipKeyframeChannel::Rotation => c.keyframes.rotation,
        ClipKeyframeChannel::Brightness => c.keyframes.brightness,
        ClipKeyframeChannel::Contrast => c.keyframes.contrast,
        ClipKeyframeChannel::Saturation => c.keyframes.saturation,
        ClipKeyframeChannel::Opacity => c.keyframes.opacity,
        ClipKeyframeChannel::Blur => c.keyframes.blur,
    }
}

/// The value of a kind that a clip has without keyframes.
pub open spec fn value_of(c: ClipView, channel: ClipKeyframeChannel) -> Scalar {
    let color = c.effect(EffectKind::ColorCorrection);
    let place = c.effect(EffectKind::Transform);
    match channel {
        ClipKeyframeChannel::PosX => place->Transform_position_x,
        ClipKeyframeChannel::PosY => place->Transform_position_y,
        ClipKeyframeChannel::Scale => place->Transform_scale,
        ClipKeyframeChannel::Rotation => place->Transform_rotation_deg,
        ClipKeyframeChannel::Brightness => color->ColorCorrection_brightness,
        ClipKeyframeChannel::Contrast => color->ColorCorrection_contrast,
        ClipKeyframeChannel::Saturation => color->ColorCorrection_saturation,
        ClipKeyframeChannel::Opacity => c.effect(EffectKind::Opacity)->Opacity_alpha,
        ClipKeyframeChannel::Blur => c.effect(EffectKind::GaussianBlur)->GaussianBlur_sigma,
    }
}

/// Whether two clips have the same keyframes of every kind but one.
pub open spec fn same_other_keys(a: ClipView, b: ClipView, channel: ClipKeyframeChannel) -> bool {
    forall|other: ClipKeyframeChannel| other != channel ==> #[trigger] keys_of(a, other) == keys_of(b, other)
}

/// Whether two clips have the same values of every kind but one, and the same effects of other kinds.
pub open spec fn same_other_values(a: ClipView, b: ClipView, channel: ClipKeyframeChannel) -> bool {
    &&& forall|other: ClipKeyframeChannel|
        other != channel ==> #[trigger] value_of(a, other) == value_of(b, other)
    &&& forall|kind: EffectKind|
        kind != EffectKind::ColorCorrection && kind != EffectKind::Transform && kind
            != EffectKind::Opacity && kind != EffectKind::GaussianBlur ==> #[trigger] a.effect(kind)
            == b.effect(kind)
}

/// Whether the playhead is over a clip, or at its end.
pub open spec fn is_over(playhead: int, c: ClipView) -> bool {
    c.start <= playhead <= c.start + c.duration
}

/// Whether there is a keyframe near the playhead.
pub open spec fn has_key_near(c: ClipView, playhead: int, channel: ClipKeyframeChannel) -> bool {
    is_over(playhead, c) && exists|k: int|
        0 <= k < keys_of(c, channel).len() && -33_000_000 <= (#[trigger] keys_of(
            c,
            channel,
        )[k]).time@ - (playhead - c.start) <= 33_000_000
}

proof fn lemma_has_key(c: ClipView, playhead: int, channel: ClipKeyframeChannel)
    ensures
        c.has_key_here(playhead, channel) == has_key_near(c, playhead, channel),
        c.keyframes.of(channel) == keys_of(c, channel),
{
    let keys = keys_of(c, channel);
    let t = playhead - c.start;
    let p = |k: ScalarKeyframe| crate::keyframes::is_near(k, t, 33_000_000);
    lemma_first(keys, p);
    let at = key_place(keys, t, 33_000_000);
    if at < keys.len() {
        assert(p(keys[at]));
        assert(-33_000_000 <= keys_of(c, channel)[at].time@ - t <= 33_000_000);
    }
    if has_key_near(c, playhead, channel) {
        let k = choose|k: int|
            0 <= k < keys_of(c, channel).len() && -33_000_000 <= (#[trigger] keys_of(
                c,
                channel,
            )[k]).time@ - (playhead - c.start) <= 33_000_000;
        assert(p(keys[k]));
    }
}

proof fn lemma_base(c: ClipView, channel: ClipKeyframeChannel, v: Scalar, kind: EffectKind)
    ensures
        ({
            let out = c.with_base(channel, v);
            &&& out == (ClipView { video_effects: out.video_effects, ..c })
            &&& same_other_values_of(out, c, channel, kind)
            &&& value_of(out, channel) == match channel {
                ClipKeyframeChannel::Rotation => v.clamped(
                    Scalar { bits: 0xc334_0000 },
                    Scalar { bits: 0x4334_0000 },
                ),
                ClipKeyframeChannel::Opacity => v.clamped(
                    Scalar { bits: 0 },
                    Scalar { bits: 0x3f80_0000 },
                ),
                ClipKeyframeChannel::Blur => v.clamped(
                    Scalar { bits: 0 },
                    Scalar { bits: 0x4280_0000 },
                ),
                _ => v,
            }
        }),
{
    let color = c.effect(EffectKind::ColorCorrection);
    let place = c.effect(EffectKind::Transform);
    crate::clip_effects::lemma_effect_kind(c.video_effects, EffectKind::ColorCorrection);
    crate::clip_effects::lemma_effect_kind(c.video_effects, EffectKind::Transform);
    let e = match channel {
        ClipKeyframeChannel::Brightness => VideoEffect::ColorCorrection {
            brightness: v,
            contrast: color->ColorCorrection_contrast,
            saturation: color->ColorCorrection_saturation,
        },
        ClipKeyframeChannel::Contrast => VideoEffect::ColorCorrection {
            brightness: color->ColorCorrection_brightness,
            contrast: v,
            saturation: color->ColorCorrection_saturation,
        },
        ClipKeyframeChannel::Saturation => VideoEffect::ColorCorrection {
            brightness: color->ColorCorrection_brightness,
            contrast: color->ColorCorrection_contrast,
            saturation: v,
        },
        ClipKeyframeChannel::Scale => VideoEffect::Transform {
            scale: v,
            position_x: place->Transform_position_x,
            position_y: place->Transform_position_y,
            rotation_deg: place->Transform_rotation_deg,
        },
        ClipKeyframeChannel::PosX => VideoEffect::Transform {
            scale: place->Transform_scale,
            position_x: v,
            position_y: place->Transform_position_y,
            rotation_deg: place->Transform_rotation_deg,
        },
        ClipKeyframeChannel::PosY => VideoEffect::Transform {
            scale: place->Transform_scale,
            position_x: place->Transform_position_x,
            position_y: v,
            rotation_deg: place->Transform_rotation_deg,
        },
        ClipKeyframeChannel::Rotation => VideoEffect::Transform {
            scale: place->Transform_scale,
            position_x: place->Transform_position_x,
            position_y: place->Transform_position_y,
            rotation_deg: v.clamped(Scalar { bits: 0xc334_0000 }, Scalar { bits: 0x4334_0000 }),
        },
        ClipKeyframeChannel::Opacity => VideoEffect::Opacity {
            alpha: v.clamped(Scalar { bits: 0 }, Scalar { bits: 0x3f80_0000 }),
        },
        ClipKeyframeChannel::Blur => VideoEffect::GaussianBlur {
            sigma: v.clamped(Scalar { bits: 0 }, Scalar { bits: 0x4280_0000 }),
        },
    };
    assert(c.with_base(channel, v) == c.with_effect(e));
    set_effect_is_found(c.video_effects, e, EffectKind::ColorCorrection);
    set_effect_is_found(c.video_effects, e, EffectKind::Transform);
    set_effect_is_found(c.video_effects, e, EffectKind::Opacity);
    set_effect_is_found(c.video_effects, e, EffectKind::GaussianBlur);
    set_effect_is_found(c.video_effects, e, kind);
}

/// What is kept of one kind of effects.
spec fn same_other_values_of(
    a: ClipView,
    b: ClipView,
    channel: ClipKeyframeChannel,
    kind: EffectKind,
) -> bool {
    &&& forall|other: ClipKeyframeChannel|
        other != channel ==> #[trigger] value_of(a, other) == value_of(b, other)
    &&& kind != EffectKind::ColorCorrection && kind != EffectKind::Transform && kind
        != EffectKind::Opacity && kind != EffectKind::GaussianBlur ==> a.effect(kind) == b.effect(
        kind,
    )
}

/// Setting a value of a clip at the playhead changes the keyframe there, if there is one near; else the
/// value that the clip has without keyframes. A rotation is within half a turn, an opacity between 0
/// and 1 and a blur between 0 and 64 then. Nothing else changes.
pub proof fn set_value_is_kept(
    c: ClipView,
    playhead: int,
    channel: ClipKeyframeChannel,
    v: Scalar,
)
    requires
        0 <= c.duration <= crate::time::MAX_NANOS,
    ensures
        ({
            let out = c.edited(playhead, ClipEdit::Channel(channel, v));
            if has_key_near(c, playhead, channel) {
                &&& is_key_set(
                    keys_of(c, channel),
                    keys_of(out, channel),
                    playhead - c.start,
                    v,
                )
                &&& same_other_keys(out, c, channel)
                &&& out == (ClipView { keyframes: out.keyframes, ..c })
            } else {
                &&& value_of(out, channel) == match channel {
                    ClipKeyframeChannel::Rotation => v.clamped(
                        Scalar { bits: 0xc334_0000 },
                        Scalar { bits: 0x4334_0000 },
                    ),
                    ClipKeyframeChannel::Opacity => v.clamped(
                        Scalar { bits: 0 },
                        Scalar { bits: 0x3f80_0000 },
                    ),
                    ClipKeyframeChannel::Blur => v.clamped(
                        Scalar { bits: 0 },
                        Scalar { bits: 0x4280_0000 },
                    ),
                    _ => v,
                }
                &&& same_other_values(out, c, channel)
                &&& out == (ClipView { video_effects: out.video_effects, ..c })
            }
        }),
{
    lemma_has_key(c, playhead, channel);
    let out = c.edited(playhead, ClipEdit::Channel(channel, v));
    if has_key_near(c, playhead, channel) {
        lemma_key_set(keys_of(c, channel), playhead - c.start, v);
    } else {
        lemma_base(c, channel, v, EffectKind::Fade);
        assert forall|kind: EffectKind|
            kind != EffectKind::ColorCorrection && kind != EffectKind::Transform && kind
                != EffectKind::Opacity && kind != EffectKind::GaussianBlur implies
            #[trigger] out.effect(kind) == c.effect(kind) by {
            lemma_base(c, channel, v, kind);
        }
    }
}

/// Adding a keyframe at the playhead keeps what is shown there: the keyframe has the value of the
/// sample at that time, or the one on the line where the sample lies between two others. Nothing else
/// changes, and nothing does where the playhead is not over the clip.
pub proof fn added_keyframe_keeps_the_value(
    c: ClipView,
    playhead: int,
    channel: ClipKeyframeChannel,
    on_line: Scalar,
)
    requires
        0 <= c.duration <= crate::time::MAX_NANOS,
    ensures
        ({
            let out = c.edited(playhead, ClipEdit::AddKey(channel, on_line));
            if is_over(playhead, c) {
                &&& is_key_set(
                    keys_of(c, channel),
                    keys_of(out, channel),
                    playhead - c.start,
                    match sampled(keys_of(c, channel), playhead - c.start, value_of(c, channel)) {
                        Sample::At(v) => v,
                        Sample::Between { .. } => on_line,
                    },
                )
                &&& same_other_keys(out, c, channel)
                &&& out == (ClipView { keyframes: out.keyframes, ..c })
            } else {
                out == c
            }
        }),
{
    lemma_has_key(c, playhead, channel);
    if is_over(playhead, c) {
        let v = crate::selected::sample_value(
            c.sample(channel, playhead - c.start),
            on_line,
        );
        lemma_key_set(keys_of(c, channel), playhead - c.start, v);
    }
}

/// Removing a keyframe at the playhead takes away one that is near, and nothing else.
pub proof fn removed_keyframe_is_gone(c: ClipView, playhead: int, channel: ClipKeyframeChannel)
    ensures
        ({
            let out = c.edited(playhead, ClipEdit::RemoveKey(channel));
            if has_key_near(c, playhead, channel) {
                &&& exists|k: int|
                    0 <= k < keys_of(c, channel).len() && -33_000_000 <= (#[trigger] keys_of(
                        c,
                        channel,
                    )[k]).time@ - (playhead - c.start) <= 33_000_000 && keys_of(out, channel)
                        == keys_of(c, channel).remove(k)
                &&& same_other_keys(out, c, channel)
                &&& out == (ClipView { keyframes: out.keyframes, ..c })
            } else {
                out == c
            }
        }),
{
    lemma_has_key(c, playhead, channel);
    if has_key_near(c, playhead, channel) {
        let keys = keys_of(c, channel);
        let t = playhead - c.start;
        let p = |k: ScalarKeyframe| crate::keyframes::is_near(k, t, 33_000_000);
        lemma_first(keys, p);
        let at = key_place(keys, t, 33_000_000);
        assert(p(keys[at]));
        assert(-33_000_000 <= keys_of(c, channel)[at].time@ - t <= 33_000_000);
    }
}

// ---------------------------------------------------------------------------
// Transitions and colours of one clip
// ---------------------------------------------------------------------------

/// Whether a clip is another with one effect, and otherwise the same.
pub open spec fn has_only_effect(out: ClipView, c: ClipView, e: VideoEffect) -> bool {
    &&& out.effect(e.kind()) == e
    &&& forall|kind: EffectKind| kind != e.kind() ==> #[trigger] out.effect(kind) == c.effect(kind)
    &&& out == (ClipView { video_effects: out.video_effects, ..c })
}

proof fn lemma_only(c: ClipView, e: VideoEffect)
    ensures
        has_only_effect(c.with_effect(e), c, e),
{
    set_effect_is_found(c.video_effects, e, e.kind());
    assert forall|kind: EffectKind| kind != e.kind() implies #[trigger] c.with_effect(e).effect(kind)
        == c.effect(kind) by {
        set_effect_is_found(c.video_effects, e, kind);
    }
}

/// A length of time that a transition takes: none below 0, and no more than the clip lasts.
pub open spec fn within_clip(c: ClipView, v: Scalar) -> Scalar {
    if v.below(Scalar { bits: 0 }) {
        Scalar { bits: 0 }
    } else if seconds_of(c.duration).below(v) {
        seconds_of(c.duration)
    } else {
        v
    }
}

/// Setting how long a clip fades in or out changes that length alone.
pub proof fn set_fade_is_kept(c: ClipView, playhead: int, v: Scalar)
    ensures
        ({
            let e = c.effect(EffectKind::Fade);
            &&& has_only_effect(
                c.edited(playhead, ClipEdit::FadeIn(v)),
                c,
                VideoEffect::Fade { fade_in: within_clip(c, v), fade_out: e->Fade_fade_out },
            )
            &&& has_only_effect(
                c.edited(playhead, ClipEdit::FadeOut(v)),
                c,
                VideoEffect::Fade { fade_in: e->Fade_fade_in, fade_out: within_clip(c, v) },
            )
        }),
{
    let e = c.effect(EffectKind::Fade);
    lemma_only(
        c,
        VideoEffect::Fade { fade_in: within_clip(c, v), fade_out: e->Fade_fade_out },
    );
    lemma_only(
        c,
        VideoEffect::Fade { fade_in: e->Fade_fade_in, fade_out: within_clip(c, v) },
    );
}

/// Setting one number of a clip's colour overlay changes that number alone.
pub proof fn set_overlay_is_kept(c: ClipView, playhead: int, v: Scalar)
    ensures
        ({
            let e = c.effect(EffectKind::Tint);
            let (h, s, l, a) = (e->Tint_hue, e->Tint_saturation, e->Tint_lightness, e->Tint_alpha);
            &&& has_only_effect(
                c.edited(playhead, ClipEdit::OverlayHue(v)),
                c,
                VideoEffect::Tint { hue: v, saturation: s, lightness: l, alpha: a },
            )
            &&& has_only_effect(
                c.edited(playhead, ClipEdit::OverlaySaturation(v)),
                c,
                VideoEffect::Tint { hue: h, saturation: v, lightness: l, alpha: a },
            )
            &&& has_only_effect(
                c.edited(playhead, ClipEdit::OverlayLightness(v)),
                c,
                VideoEffect::Tint { hue: h, saturation: s, lightness: v, alpha: a },
            )
            &&& has_only_effect(
                c.edited(playhead, ClipEdit::OverlayAlpha(v)),
                c,
                VideoEffect::Tint { hue: h, saturation: s, lightness: l, alpha: v },
            )
        }),
{
    let e = c.effect(EffectKind::Tint);
    let (h, s, l, a) = (e->Tint_hue, e->Tint_saturation, e->Tint_lightness, e->Tint_alpha);
    lemma_only(c, VideoEffect::Tint { hue: v, saturation: s, lightness: l, alpha: a });
    lemma_only(c, VideoEffect::Tint { hue: h, saturation: v, lightness: l, alpha: a });
    lemma_only(c, VideoEffect::Tint { hue: h, saturation: s, lightness: v, alpha: a });
    lemma_only(c, VideoEffect::Tint { hue: h, saturation: s, lightness: l, alpha: v });
}

/// Setting one number of how a clip slides, zooms or shakes changes that number alone, if the others
/// were within the clip and in their ranges. An amount is between a tenth and 4.
pub proof fn set_motion_is_kept(c: ClipView, playhead: int, v: Scalar)
    requires
        ({
            let s = c.effect(EffectKind::Slide);
            let z = c.effect(EffectKind::Zoom);
            let k = c.effect(EffectKind::ShockZoom);
            &&& within_clip(c, s->Slide_slide_in) == s->Slide_slide_in
            &&& within_clip(c, s->Slide_slide_out) == s->Slide_slide_out
            &&& within_clip(c, z->Zoom_zoom_in) == z->Zoom_zoom_in
            &&& within_clip(c, z->Zoom_zoom_out) == z->Zoom_zoom_out
            &&& within_clip(c, k->ShockZoom_shock_in) == k->ShockZoom_shock_in
            &&& within_clip(c, k->ShockZoom_shock_out) == k->ShockZoom_shock_out
            &&& amount_within(z->Zoom_zoom_amount) == z->Zoom_zoom_amount
            &&& amount_within(k->ShockZoom_shock_amount) == k->ShockZoom_shock_amount
        }),
    ensures
        ({
            let s = c.effect(EffectKind::Slide);
            let z = c.effect(EffectKind::Zoom);
            let k = c.effect(EffectKind::ShockZoom);
            let slide = |a: Scalar, b: Scalar|
                VideoEffect::Slide {
                    in_direction: s->Slide_in_direction,
                    out_direction: s->Slide_out_direction,
                    slide_in: a,
                    slide_out: b,
                };
            let zoom = |a: Scalar, b: Scalar, n: Scalar|
                VideoEffect::Zoom { zoom_in: a, zoom_out: b, zoom_amount: n };
            let shock = |a: Scalar, b: Scalar, n: Scalar|
                VideoEffect::ShockZoom { shock_in: a, shock_out: b, shock_amount: n };
            let w = within_clip(c, v);
            let n = amount_within(v);
            &&& has_only_effect(
                c.edited(playhead, ClipEdit::SlideIn(v)),
                c,
                slide(w, s->Slide_slide_out),
            )
            &&& has_only_effect(
                c.edited(playhead, ClipEdit::SlideOut(v)),
                c,
                slide(s->Slide_slide_in, w),
            )
            &&& has_only_effect(
                c.edited(playhead, ClipEdit::ZoomIn(v)),
                c,
                zoom(w, z->Zoom_zoom_out, z->Zoom_zoom_amount),
            )
            &&& has_only_effect(
                c.edited(playhead, ClipEdit::ZoomOut(v)),
                c,
                zoom(z->Zoom_zoom_in, w, z->Zoom_zoom_amount),
            )
            &&& has_only_effect(
                c.edited(playhead, ClipEdit::ZoomAmount(v)),
                c,
                zoom(z->Zoom_zoom_in, z->Zoom_zoom_out, n),
            )
            &&& has_only_effect(
                c.edited(playhead, ClipEdit::ShockIn(v)),
                c,
                shock(w, k->ShockZoom_shock_out, k->ShockZoom_shock_amount),
            )
            &&& has_only_effect(
                c.edited(playhead, ClipEdit::ShockOut(v)),
                c,
                shock(k->ShockZoom_shock_in, w, k->ShockZoom_shock_amount),
            )
            &&& has_only_effect(
                c.edited(playhead, ClipEdit::ShockAmount(v)),
                c,
                shock(k->ShockZoom_shock_in, k->ShockZoom_shock_out, n),
            )
        }),
{
    let s = c.effect(EffectKind::Slide);
    let z = c.effect(EffectKind::Zoom);
    let k = c.effect(EffectKind::ShockZoom);
    let w = within_clip(c, v);
    let n = amount_within(v);
    let i = s->Slide_in_direction;
    let o = s->Slide_out_direction;
    let (a, b) = (s->Slide_slide_in, s->Slide_slide_out);
    lemma_only(
        c,
        VideoEffect::Slide { in_direction: i, out_direction: o, slide_in: w, slide_out: b },
    );
    lemma_only(
        c,
        VideoEffect::Slide { in_direction: i, out_direction: o, slide_in: a, slide_out: w },
    );
    let (p, q, m) = (z->Zoom_zoom_in, z->Zoom_zoom_out, z->Zoom_zoom_amount);
    lemma_only(c, VideoEffect::Zoom { zoom_in: w, zoom_out: q, zoom_amount: m });
    lemma_only(c, VideoEffect::Zoom { zoom_in: p, zoom_out: w, zoom_amount: m });
    lemma_only(c, VideoEffect::Zoom { zoom_in: p, zoom_out: q, zoom_amount: n });
    let (e, f, g) = (
        k->ShockZoom_shock_in,
        k->ShockZoom_shock_out,
        k->ShockZoom_shock_amount,
    );
    lemma_only(c, VideoEffect::ShockZoom { shock_in: w, shock_out: f, shock_amount: g });
    lemma_only(c, VideoEffect::ShockZoom { shock_in: e, shock_out: w, shock_amount: g });
    lemma_only(c, VideoEffect::ShockZoom { shock_in: e, shock_out: f, shock_amount: n });
}

/// An amount between a tenth and 4.
pub open spec fn amount_within(v: Scalar) -> Scalar {
    v.clamped(Scalar { bits: 0x3dcc_cccd }, Scalar { bits: 0x4080_0000 })
}

/// An edit of the selected clip changes that clip alone.
pub proof fn edit_changes_the_selected_clip(
    s: StateView,
    clip_id: u64,
    edit: ClipEdit,
    i: int,
    at: int,
)
    requires
        s.selection.selected_clip_id == Some(clip_id),
        is_picture(s.timeline, i, at, clip_id),
    ensures
        ({
            let after = s.selected_edited(edit);
            let row = s.timeline.lane(i);
            &&& after.timeline == s.timeline.with_lane(
                i,
                row.update(at, row[at].edited(s.timeline.playhead, edit)),
            )
            &&& after.timeline.lane(i) == row.update(
                at,
                row[at].edited(s.timeline.playhead, edit),
            )
            &&& after.selection == s.selection
        }),
{
    reveal(TimelineView::picture_edited);
    saving_keeps_all_else(s, false);
    let t = s.timeline;
    lemma_picture_lane(t, i, at, clip_id);
    let out = t.lane(i).update(at, t.lane(i)[at].edited(t.playhead, edit));
    lemma_lanes_put(t, t.lanes().update(i, out));
    assert(t.with_lane(i, out).lane(i) == t.with_lane(i, out).lanes()[i]);
}

// ---------------------------------------------------------------------------
// Masks
// ---------------------------------------------------------------------------

/// Setting one number of a mask layer that a clip has changes that number of that layer alone. A share
/// is between 0 and 1.
pub proof fn set_mask_number_is_kept(c: ClipView, playhead: int, i: usize, v: Scalar)
    requires
        i < c.local_mask_layers.len(),
        i < 5,
        ({
            let l = c.local_mask_layers[i as int];
            share_within(l.center_x) == l.center_x && share_within(l.center_y) == l.center_y
                && share_within(l.radius) == l.radius && share_within(l.feather) == l.feather
                && share_within(l.strength) == l.strength
        }),
    ensures
        ({
            let n = i as int;
            let l = c.local_mask_layers[n];
            let put = |x: crate::effect::LocalMaskLayer|
                ClipView { local_mask_layers: c.local_mask_layers.update(n, x), ..c };
            let w = share_within(v);
            &&& c.edited(playhead, ClipEdit::MaskCenterX(i, v)) == put(
                crate::effect::LocalMaskLayer { center_x: w, ..l },
            )
            &&& c.edited(playhead, ClipEdit::MaskCenterY(i, v)) == put(
                crate::effect::LocalMaskLayer { center_y: w, ..l },
            )
            &&& c.edited(playhead, ClipEdit::MaskRadius(i, v)) == put(
                crate::effect::LocalMaskLayer { radius: w, ..l },
            )
            &&& c.edited(playhead, ClipEdit::MaskFeather(i, v)) == put(
                crate::effect::LocalMaskLayer { feather: w, ..l },
            )
            &&& c.edited(playhead, ClipEdit::MaskStrength(i, v)) == put(
                crate::effect::LocalMaskLayer { strength: w, ..l },
            )
            &&& forall|on: bool| #[trigger]
                c.edited(playhead, ClipEdit::MaskEnabled(i, on)) == put(
                    crate::effect::LocalMaskLayer { enabled: on, ..l },
                )
        }),
{
}

/// A share between 0 and 1.
pub open spec fn share_within(v: Scalar) -> Scalar {
    v.clamped(Scalar { bits: 0 }, Scalar { bits: 0x3f80_0000 })
}

} // verus!
