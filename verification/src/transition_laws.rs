//! What transitions do to clips.
use crate::clip::ClipView;
use crate::clip_effects::{seconds_of, set_effect_is_found, EffectKind};
use crate::effect::{SlideDirection, VideoEffect};
use crate::lanes::{lemma_lanes_put, Lane};
use crate::lists::lemma_first_is;
use crate::modes::TransitionType;
use crate::move_laws::is_place_of;
use crate::moves::place_of;
use crate::scalar::Scalar;
use crate::state::{saving_keeps_all_else, StateView};
use crate::tracks::TimelineView;
use crate::transitions::lane_with_transition;
use vstd::prelude::*;

verus! {

/// Whether a row is one of pictures and has a clip at a place: the main track, or one above it where
/// neither the main track nor one below has the clip.
pub open spec fn is_picture(t: TimelineView, i: int, at: int, clip_id: u64) -> bool {
    let above = 1 + t.audio_tracks.len();
    &&& 0 <= i < t.lane_count()
    &&& is_place_of(t.lane(i), at, clip_id)
    &&& i == 0 || (above <= i && (forall|j: int|
        0 <= j < t.v1_clips.len() ==> (#[trigger] t.v1_clips[j]).id != clip_id) && forall|
        k: int,
        j: int,
    |
        0 <= k < i - above && 0 <= j < t.video_tracks[k].clips.len() ==> (
        #[trigger] t.video_tracks[k].clips[j]).id != clip_id)
}

/// Whether a clip lasts for a number of seconds, as they are counted in single-precision numbers.
pub open spec fn lasts(c: ClipView, seconds: u32) -> bool {
    !seconds_of(c.duration).below(Scalar { bits: seconds })
}

/// Whether two clips are the same but for effects of two kinds.
pub open spec fn same_but_effects(a: ClipView, b: ClipView, x: EffectKind, y: EffectKind) -> bool {
    &&& a == (ClipView { video_effects: a.video_effects, ..b })
    &&& forall|kind: EffectKind| kind != x && kind != y ==> #[trigger] a.effect(kind) == b.effect(kind)
}

proof fn lemma_place(lane: Lane, at: int, clip_id: u64)
    requires
        is_place_of(lane, at, clip_id),
    ensures
        place_of(lane, clip_id) == at,
{
    let p = |c: ClipView| c.id == clip_id;
    assert forall|j: int| 0 <= j < at implies !p(#[trigger] lane[j]) by {}
    lemma_first_is(lane, p, at);
}

proof fn lemma_absent(lane: Lane, clip_id: u64)
    requires
        forall|j: int| 0 <= j < lane.len() ==> (#[trigger] lane[j]).id != clip_id,
    ensures
        place_of(lane, clip_id) == lane.len(),
{
    let p = |c: ClipView| c.id == clip_id;
    assert forall|j: int| 0 <= j < lane.len() implies !p(#[trigger] lane[j]) by {}
    lemma_first_is(lane, p, lane.len() as int);
}

proof fn lemma_track(t: TimelineView, clip_id: u64, source: int, k: int)
    requires
        0 <= k <= source < t.video_tracks.len(),
        t.has_video_clip(source, clip_id),
        forall|k: int, j: int|
            0 <= k < source && 0 <= j < t.video_tracks[k].clips.len() ==> (
            #[trigger] t.video_tracks[k].clips[j]).id != clip_id,
    ensures
        t.video_track_of(clip_id, k) == source,
    decreases source - k,
{
    if k < source {
        assert forall|j: int| 0 <= j < t.video_tracks[k].clips.len() implies (
        #[trigger] t.video_tracks[k].clips[j]).id != clip_id by {}
        lemma_absent(t.video_tracks[k].clips, clip_id);
        lemma_track(t, clip_id, source, k + 1);
    }
}

pub proof fn lemma_picture_lane(t: TimelineView, i: int, at: int, clip_id: u64)
    requires
        is_picture(t, i, at, clip_id),
    ensures
        t.picture_lane(clip_id) == i,
        place_of(t.lane(i), clip_id) == at,
        t.has_picture(clip_id),
{
    lemma_place(t.lane(i), at, clip_id);
    if i > 0 {
        lemma_absent(t.v1_clips, clip_id);
        let k = i - 1 - t.audio_tracks.len();
        assert(t.lane(i) == t.video_tracks[k].clips);
        lemma_track(t, clip_id, k, 0);
    }
}

/// The row with a transition is as the timeline has it, and no other row changes.
proof fn lemma_transitioned(s: StateView, clip_id: u64, transition: TransitionType, i: int, at: int)
    requires
        is_picture(s.timeline, i, at, clip_id),
    ensures
        ({
            let after = s.transitioned(clip_id, transition);
            &&& after.timeline.lane(i) == lane_with_transition(s.timeline.lane(i), at, transition)
            &&& after.timeline == s.timeline.with_lane(i, after.timeline.lane(i))
            &&& after.ui_notice is None
        }),
{
    reveal(TimelineView::with_transition);
    saving_keeps_all_else(s, false);
    let t = s.timeline;
    lemma_picture_lane(t, i, at, clip_id);
    let lane = lane_with_transition(t.lane(i), at, transition);
    lemma_lanes_put(t, t.lanes().update(i, lane));
    assert(t.with_lane(i, lane).lane(i) == t.with_lane(i, lane).lanes()[i]);
}

proof fn lemma_effects(c: ClipView, e: VideoEffect, kind: EffectKind)
    ensures
        c.with_effect(e).effect(kind) == if kind == e.kind() {
            e
        } else {
            c.effect(kind)
        },
{
    set_effect_is_found(c.video_effects, e, kind);
}

/// What four lengths of fades and dissolves leave of a clip.
proof fn lemma_edges(c: ClipView, a: Scalar, b: Scalar, d: Scalar, e: Scalar, kind: EffectKind)
    ensures
        ({
            let out = c.with_fade_in(a).with_fade_out(b).with_dissolve_in(d).with_dissolve_out(e);
            &&& out == (ClipView { video_effects: out.video_effects, ..c })
            &&& out.effect(EffectKind::Fade) == (VideoEffect::Fade {
                fade_in: c.fitted(a),
                fade_out: c.fitted(b),
            })
            &&& out.effect(EffectKind::Dissolve) == (VideoEffect::Dissolve {
                dissolve_in: c.fitted(d),
                dissolve_out: c.fitted(e),
            })
            &&& kind != EffectKind::Fade && kind != EffectKind::Dissolve ==> out.effect(kind)
                == c.effect(kind)
        }),
{
    let c1 = c.with_fade_in(a);
    let e1 = VideoEffect::Fade {
        fade_in: c.fitted(a),
        fade_out: c.effect(EffectKind::Fade)->Fade_fade_out,
    };
    lemma_effects(c, e1, EffectKind::Fade);
    lemma_effects(c, e1, EffectKind::Dissolve);
    lemma_effects(c, e1, kind);
    let c2 = c1.with_fade_out(b);
    let e2 = VideoEffect::Fade {
        fade_in: c1.effect(EffectKind::Fade)->Fade_fade_in,
        fade_out: c1.fitted(b),
    };
    lemma_effects(c1, e2, EffectKind::Fade);
    lemma_effects(c1, e2, EffectKind::Dissolve);
    lemma_effects(c1, e2, kind);
    let c3 = c2.with_dissolve_in(d);
    let e3 = VideoEffect::Dissolve {
        dissolve_in: c2.fitted(d),
        dissolve_out: c2.effect(EffectKind::Dissolve)->Dissolve_dissolve_out,
    };
    lemma_effects(c2, e3, EffectKind::Fade);
    lemma_effects(c2, e3, EffectKind::Dissolve);
    lemma_effects(c2, e3, kind);
    let e4 = VideoEffect::Dissolve {
        dissolve_in: c3.effect(EffectKind::Dissolve)->Dissolve_dissolve_in,
        dissolve_out: c3.fitted(e),
    };
    lemma_effects(c3, e4, EffectKind::Fade);
    lemma_effects(c3, e4, EffectKind::Dissolve);
    lemma_effects(c3, e4, kind);
}

/// A fade transition gives a clip of half a second or more a fade of half a second at both ends and
/// no dissolve, and changes nothing else.
pub proof fn fade_transition_fades(s: StateView, clip_id: u64, i: int, at: int)
    requires
        is_picture(s.timeline, i, at, clip_id),
        lasts(s.timeline.lane(i)[at], 0x3f00_0000),
        lasts(s.timeline.lane(i)[at], 0),
    ensures
        ({
            let after = s.transitioned(clip_id, TransitionType::Fade);
            let row = s.timeline.lane(i);
            let c = after.timeline.lane(i)[at];
            &&& after.timeline == s.timeline.with_lane(i, row.update(at, c))
            &&& c.effect(EffectKind::Fade)->Fade_fade_in.bits == 0x3f00_0000
            &&& c.effect(EffectKind::Fade)->Fade_fade_out.bits == 0x3f00_0000
            &&& c.effect(EffectKind::Dissolve)->Dissolve_dissolve_in.bits == 0
            &&& c.effect(EffectKind::Dissolve)->Dissolve_dissolve_out.bits == 0
            &&& same_but_effects(c, row[at], EffectKind::Fade, EffectKind::Dissolve)
        }),
{
    lemma_transitioned(s, clip_id, TransitionType::Fade, i, at);
    let row = s.timeline.lane(i);
    let half = Scalar { bits: 0x3f00_0000 };
    let none = Scalar { bits: 0 };
    assert forall|kind: EffectKind| kind != EffectKind::Fade && kind
        != EffectKind::Dissolve implies #[trigger] row[at].faded().effect(kind) == row[at].effect(
        kind,
    ) by {
        lemma_edges(row[at], half, half, none, none, kind);
    }
    lemma_edges(row[at], half, half, none, none, EffectKind::Fade);
}

/// A slide transition lets a clip of half a second or more come from the right in half a second and
/// go to the left in half a second, and changes nothing else.
pub proof fn slide_transition_slides(s: StateView, clip_id: u64, i: int, at: int)
    requires
        is_picture(s.timeline, i, at, clip_id),
        lasts(s.timeline.lane(i)[at], 0x3f00_0000),
    ensures
        ({
            let after = s.transitioned(clip_id, TransitionType::Slide);
            let row = s.timeline.lane(i);
            let c = after.timeline.lane(i)[at];
            let e = c.effect(EffectKind::Slide);
            &&& after.timeline == s.timeline.with_lane(i, row.update(at, c))
            &&& e->Slide_in_direction == SlideDirection::Right
            &&& e->Slide_out_direction == SlideDirection::Left
            &&& e->Slide_slide_in.bits == 0x3f00_0000
            &&& e->Slide_slide_out.bits == 0x3f00_0000
            &&& same_but_effects(c, row[at], EffectKind::Slide, EffectKind::Slide)
        }),
{
    lemma_transitioned(s, clip_id, TransitionType::Slide, i, at);
    let c = s.timeline.lane(i)[at];
    let e = VideoEffect::Slide {
        in_direction: SlideDirection::Right,
        out_direction: SlideDirection::Left,
        slide_in: c.fitted(Scalar { bits: 0x3f00_0000 }),
        slide_out: c.fitted(Scalar { bits: 0x3f00_0000 }),
    };
    lemma_effects(c, e, EffectKind::Slide);
    assert forall|kind: EffectKind| kind != EffectKind::Slide implies #[trigger] c.slid().effect(kind)
        == c.effect(kind) by {
        lemma_effects(c, e, kind);
    }
}

/// A zoom transition lets a clip of half a second or more grow in half a second and shrink in half a
/// second, by a tenth, and changes nothing else.
pub proof fn zoom_transition_zooms(s: StateView, clip_id: u64, i: int, at: int)
    requires
        is_picture(s.timeline, i, at, clip_id),
        lasts(s.timeline.lane(i)[at], 0x3f00_0000),
    ensures
        ({
            let after = s.transitioned(clip_id, TransitionType::Zoom);
            let row = s.timeline.lane(i);
            let c = after.timeline.lane(i)[at];
            let e = c.effect(EffectKind::Zoom);
            &&& after.timeline == s.timeline.with_lane(i, row.update(at, c))
            &&& e->Zoom_zoom_in.bits == 0x3f00_0000
            &&& e->Zoom_zoom_out.bits == 0x3f00_0000
            &&& e->Zoom_zoom_amount.bits == 0x3f8c_cccd
            &&& same_but_effects(c, row[at], EffectKind::Zoom, EffectKind::Zoom)
        }),
{
    lemma_transitioned(s, clip_id, TransitionType::Zoom, i, at);
    let c = s.timeline.lane(i)[at];
    let e = VideoEffect::Zoom {
        zoom_in: c.fitted(Scalar { bits: 0x3f00_0000 }),
        zoom_out: c.fitted(Scalar { bits: 0x3f00_0000 }),
        zoom_amount: Scalar { bits: 0x3f8c_cccd },
    };
    assert(c.zoomed() == c.with_effect(e));
    lemma_effects(c, e, EffectKind::Zoom);
    assert forall|kind: EffectKind| kind != EffectKind::Zoom implies #[trigger] c.zoomed().effect(
        kind,
    ) == c.effect(kind) by {
        lemma_effects(c, e, kind);
    }
}

/// Whether a clip is another that is shaken for a fifth of a second at some of its ends, and is
/// otherwise the same.
pub open spec fn is_shaken(c: ClipView, before: ClipView, at_start: bool, at_end: bool) -> bool {
    let e = c.effect(EffectKind::ShockZoom);
    &&& e->ShockZoom_shock_in.bits == if at_start {
        0x3e4c_cccdu32
    } else {
        0
    }
    &&& e->ShockZoom_shock_out.bits == if at_end {
        0x3e4c_cccdu32
    } else {
        0
    }
    &&& e->ShockZoom_shock_amount.bits == 0x3fb3_3333
    &&& same_but_effects(c, before, EffectKind::ShockZoom, EffectKind::ShockZoom)
}

proof fn lemma_shaken(c: ClipView, at_start: bool, at_end: bool)
    requires
        lasts(c, 0x3e4c_cccd),
        lasts(c, 0),
    ensures
        is_shaken(c.shocked(at_start, at_end), c, at_start, at_end),
{
    let length = |yes: bool|
        c.fitted(
            Scalar {
                bits: if yes {
                    0x3e4c_cccd
                } else {
                    0
                },
            },
        );
    let e = VideoEffect::ShockZoom {
        shock_in: length(at_start),
        shock_out: length(at_end),
        shock_amount: Scalar { bits: 0x3fb3_3333 },
    };
    assert(c.shocked(at_start, at_end) == c.with_effect(e));
    lemma_effects(c, e, EffectKind::ShockZoom);
    assert forall|kind: EffectKind| kind != EffectKind::ShockZoom implies #[trigger] c.shocked(
        at_start,
        at_end,
    ).effect(kind) == c.effect(kind) by {
        lemma_effects(c, e, kind);
    }
}

/// A shock transition shakes a clip at its end and the next one at its start; the last clip of a row
/// at its start and the one before it at its end; and one that is alone at both of its ends. Nothing
/// else changes.
pub proof fn shock_transition_shakes(s: StateView, clip_id: u64, i: int, at: int)
    requires
        is_picture(s.timeline, i, at, clip_id),
        forall|k: int|
            0 <= k < s.timeline.lane(i).len() ==> lasts(#[trigger] s.timeline.lane(i)[k], 0x3e4c_cccd)
                && lasts(s.timeline.lane(i)[k], 0),
    ensures
        ({
            let after = s.transitioned(clip_id, TransitionType::ShockZoom).timeline;
            let row = s.timeline.lane(i);
            let out = after.lane(i);
            let (a, b) = if at + 1 < row.len() {
                (at, at + 1)
            } else if at > 0 {
                (at - 1, at)
            } else {
                (at, at)
            };
            &&& after == s.timeline.with_lane(i, out)
            &&& out.len() == row.len()
            &&& forall|k: int|
                0 <= k < row.len() && k != a && k != b ==> #[trigger] out[k] == row[k]
            &&& is_shaken(out[a], row[a], row.len() == 1, true)
            &&& is_shaken(out[b], row[b], true, row.len() == 1)
        }),
{
    lemma_transitioned(s, clip_id, TransitionType::ShockZoom, i, at);
    let row = s.timeline.lane(i);
    assert(lasts(row[at], 0x3e4c_cccd));
    if at + 1 < row.len() {
        assert(lasts(row[at + 1], 0x3e4c_cccd));
        lemma_shaken(row[at], false, true);
        lemma_shaken(row[at + 1], true, false);
    } else if at > 0 {
        assert(lasts(row[at - 1], 0x3e4c_cccd));
        lemma_shaken(row[at - 1], false, true);
        lemma_shaken(row[at], true, false);
    } else {
        lemma_shaken(row[at], true, true);
    }
}

// ---------------------------------------------------------------------------
// Dissolves
// ---------------------------------------------------------------------------

/// Whether two clips are two others between which there is a dissolve of a length, at the end of the
/// first and the start of the second, and no fade and no other dissolve; otherwise they are the
/// same. A length counts for no more than a clip lasts.
pub open spec fn are_dissolved(
    a: ClipView,
    b: ClipView,
    left: ClipView,
    right: ClipView,
    length: Scalar,
) -> bool {
    let zero = Scalar { bits: 0 };
    &&& same_but_effects(a, left, EffectKind::Fade, EffectKind::Dissolve)
    &&& same_but_effects(b, right, EffectKind::Fade, EffectKind::Dissolve)
    &&& a.effect(EffectKind::Dissolve)->Dissolve_dissolve_out == length.clamped(
        zero,
        seconds_of(left.duration),
    )
    &&& b.effect(EffectKind::Dissolve)->Dissolve_dissolve_in == length.clamped(
        zero,
        seconds_of(right.duration),
    )
    &&& lasts(left, 0) ==> a.effect(EffectKind::Dissolve)->Dissolve_dissolve_in == zero && a.effect(
        EffectKind::Fade,
    ) == (VideoEffect::Fade { fade_in: zero, fade_out: zero })
    &&& lasts(right, 0) ==> b.effect(EffectKind::Dissolve)->Dissolve_dissolve_out == zero && b.effect(
        EffectKind::Fade,
    ) == (VideoEffect::Fade { fade_in: zero, fade_out: zero })
}

proof fn lemma_dissolving(c: ClipView, length: Scalar, out: bool, kind: EffectKind)
    ensures
        ({
            let zero = Scalar { bits: 0 };
            let d = if out {
                c.dissolving_out(length)
            } else {
                c.dissolving_in(length)
            };
            &&& d == (ClipView { video_effects: d.video_effects, ..c })
            &&& d.effect(EffectKind::Fade) == (VideoEffect::Fade {
                fade_in: c.fitted(zero),
                fade_out: c.fitted(zero),
            })
            &&& d.effect(EffectKind::Dissolve) == (VideoEffect::Dissolve {
                dissolve_in: c.fitted(
                    if out {
                        zero
                    } else {
                        length
                    },
                ),
                dissolve_out: c.fitted(
                    if out {
                        length
                    } else {
                        zero
                    },
                ),
            })
            &&& kind != EffectKind::Fade && kind != EffectKind::Dissolve ==> d.effect(kind)
                == c.effect(kind)
        }),
{
    let zero = Scalar { bits: 0 };
    let f = EffectKind::Fade;
    let g = EffectKind::Dissolve;
    let e1 = if out {
        VideoEffect::Dissolve {
            dissolve_in: c.effect(g)->Dissolve_dissolve_in,
            dissolve_out: c.fitted(length),
        }
    } else {
        VideoEffect::Dissolve {
            dissolve_in: c.fitted(length),
            dissolve_out: c.effect(g)->Dissolve_dissolve_out,
        }
    };
    lemma_effects(c, e1, f);
    lemma_effects(c, e1, g);
    lemma_effects(c, e1, kind);
    let c1 = c.with_effect(e1);
    let e2 = if out {
        VideoEffect::Dissolve {
            dissolve_in: c1.fitted(zero),
            dissolve_out: c1.effect(g)->Dissolve_dissolve_out,
        }
    } else {
        VideoEffect::Dissolve {
            dissolve_in: c1.effect(g)->Dissolve_dissolve_in,
            dissolve_out: c1.fitted(zero),
        }
    };
    lemma_effects(c1, e2, f);
    lemma_effects(c1, e2, g);
    lemma_effects(c1, e2, kind);
    let c2 = c1.with_effect(e2);
    let e3 = VideoEffect::Fade {
        fade_in: c2.fitted(zero),
        fade_out: c2.effect(f)->Fade_fade_out,
    };
    lemma_effects(c2, e3, f);
    lemma_effects(c2, e3, g);
    lemma_effects(c2, e3, kind);
    let c3 = c2.with_effect(e3);
    let e4 = VideoEffect::Fade {
        fade_in: c3.effect(f)->Fade_fade_in,
        fade_out: c3.fitted(zero),
    };
    lemma_effects(c3, e4, f);
    lemma_effects(c3, e4, g);
    lemma_effects(c3, e4, kind);
}

proof fn lemma_are_dissolved(left: ClipView, right: ClipView, length: Scalar)
    ensures
        are_dissolved(
            left.dissolving_out(length),
            right.dissolving_in(length),
            left,
            right,
            length,
        ),
{
    assert forall|kind: EffectKind| kind != EffectKind::Fade && kind
        != EffectKind::Dissolve implies #[trigger] left.dissolving_out(length).effect(kind)
        == left.effect(kind) by {
        lemma_dissolving(left, length, true, kind);
    }
    assert forall|kind: EffectKind| kind != EffectKind::Fade && kind
        != EffectKind::Dissolve implies #[trigger] right.dissolving_in(length).effect(kind)
        == right.effect(kind) by {
        lemma_dissolving(right, length, false, kind);
    }
    lemma_dissolving(left, length, true, EffectKind::Fade);
    lemma_dissolving(right, length, false, EffectKind::Fade);
}

/// A dissolve on the main track lies between a clip and the next one, or the one before it where it
/// is the last. It takes half a second, or twice what the two files hold beyond what is shown, if
/// that is less. With no more than a thousandth of a second left nothing is changed, and the user
/// is asked whether the clips shall be trimmed; with no clip beside it the user is told.
pub proof fn dissolve_lies_between_neighbours(s: StateView, clip_id: u64, at: int)
    requires
        is_place_of(s.timeline.v1_clips, at, clip_id),
        s.timeline.v1_clips.len() <= usize::MAX,
    ensures
        ({
            let row = s.timeline.v1_clips;
            let after = s.dissolved(clip_id);
            let applied = s.timeline.dissolve_plan(clip_id).fit.fits();
            let a = if at + 1 < row.len() {
                at
            } else {
                at - 1
            };
            let left = row[a];
            let right = row[a + 1];
            let shown = crate::time::least(
                left.source_in + left.duration,
                crate::time::MAX_NANOS as int,
            );
            let behind = crate::time::monus(left.media_duration, shown);
            let length = Scalar { bits: 0x3f00_0000 }.smaller(
                seconds_of(behind).smaller(seconds_of(right.source_in)).doubled(),
            );
            let too_short = !length.nan() && length.key() <= 0x3a83_126f;
            if row.len() == 1 {
                !applied && after.timeline == s.timeline && after.ui_notice == Some(
                    "Dissolve requires an adjacent clip on V1."@,
                )
            } else if too_short {
                !applied && after.timeline == s.timeline && after.ui_notice == Some(
                    "Insufficient media (handles) for dissolve. Trim to fit?"@,
                ) && after.pending_trim_to_fit is Some && after.pending_trim_to_fit->0.left_id
                    == left.id && after.pending_trim_to_fit->0.right_id == right.id
            } else {
                let out = after.timeline.v1_clips;
                &&& applied
                &&& out.len() == row.len()
                &&& forall|k: int|
                    0 <= k < row.len() && k != a && k != a + 1 ==> #[trigger] out[k] == row[k]
                &&& are_dissolved(out[a], out[a + 1], left, right, length)
                &&& after.timeline == (TimelineView { v1_clips: out, ..s.timeline })
                &&& after.ui_notice is None
            }
        }),
{
    reveal(TimelineView::dissolve_plan);
    reveal(TimelineView::dissolved);
    saving_keeps_all_else(s, false);
    let t = s.timeline;
    assert(t.lane(0) == t.v1_clips);
    lemma_picture_lane(t, 0, at, clip_id);
    let plan = t.dissolve_plan(clip_id);
    if plan.fit.fits() {
        let row = t.v1_clips;
        let left = row[plan.out_index as int];
        let right = row[plan.in_index as int];
        lemma_are_dissolved(left, right, plan.length);
        let lane = crate::transitions::lane_dissolved(
            row,
            plan.out_index as int,
            plan.in_index as int,
            plan.length,
        );
        lemma_lanes_put(t, t.lanes().update(0, lane));
        let u = t.with_lane(0, lane);
        assert(u.v1_clips == lane);
        assert(u.audio_tracks =~= t.audio_tracks);
        assert(u.video_tracks =~= t.video_tracks);
    }
}

} // verus!
