//! What clips are there after an edit.
use crate::anchors::in_expansion;
use crate::clip::{by_start, ClipView};
use crate::clip_effects::EffectKind;
use crate::duplicates::{duplicate_of, with_room};
use crate::grouping::lane_regrouped;
use crate::lanes::{lemma_all_clips, lemma_lanes_put, Lane};
use crate::links::{free_group_is_free, largest_group};
use crate::lists::{first, lemma_first};
use crate::modes::TrackType;
use crate::move_laws::is_place_of;
use crate::moves::{packed, place_of, total_length};
use crate::navigation::{is_shown, last_end, shown_id};
use crate::order::{in_order, ordered, ordered_is_sorted_permutation};
use crate::placing::{lane_end, new_clip};
use crate::removal::{is_still, lane_without, v1_without};
use crate::ripple::lemma_filter_keeps_all;
use crate::state::{saving_keeps_all_else, StateView};
use crate::subtitle::SubtitleClipView;
use crate::time::MAX_NANOS;
use crate::tracks::TimelineView;
use vstd::prelude::*;

verus! {

proof fn lemma_place(lane: Lane, at: int, clip_id: u64)
    requires
        is_place_of(lane, at, clip_id),
    ensures
        place_of(lane, clip_id) == at,
{
    let p = |c: ClipView| c.id == clip_id;
    assert forall|j: int| 0 <= j < at implies !p(#[trigger] lane[j]) by {}
    crate::lists::lemma_first_is(lane, p, at);
}

// ---------------------------------------------------------------------------
// New clips
// ---------------------------------------------------------------------------

/// Whether a clip shows a file from its beginning for some time, as it is: with no change of its
/// picture, its sound, its place or its size, and nothing that comes or goes.
pub open spec fn shows_file(c: ClipView, path: Seq<char>, start: int, duration: int) -> bool {
    let one = 0x3f80_0000u32;
    &&& c.file_path == path
    &&& c.start == start
    &&& c.duration == duration
    &&& c.source_in == 0
    &&& c.media_duration == duration
    &&& c.audio_gain_db.bits == 0
    &&& c.dissolve_trim_in == 0 && c.dissolve_trim_out == 0
    &&& c.keyframes.opacity.len() == 0 && c.keyframes.scale.len() == 0
        && c.keyframes.pos_x.len() == 0 && c.keyframes.pos_y.len() == 0
        && c.keyframes.rotation.len() == 0 && c.keyframes.brightness.len() == 0
        && c.keyframes.contrast.len() == 0 && c.keyframes.saturation.len() == 0
        && c.keyframes.blur.len() == 0
    &&& c.effect(EffectKind::Opacity)->Opacity_alpha.bits == one
    &&& c.effect(EffectKind::Transform)->Transform_scale.bits == one
    &&& c.effect(EffectKind::Transform)->Transform_position_x.bits == 0
    &&& c.effect(EffectKind::Transform)->Transform_position_y.bits == 0
    &&& c.effect(EffectKind::Transform)->Transform_rotation_deg.bits == 0
    &&& c.effect(EffectKind::ColorCorrection)->ColorCorrection_brightness.bits == 0
    &&& c.effect(EffectKind::ColorCorrection)->ColorCorrection_contrast.bits == one
    &&& c.effect(EffectKind::ColorCorrection)->ColorCorrection_saturation.bits == one
    &&& c.effect(EffectKind::GaussianBlur)->GaussianBlur_sigma.bits == 0
    &&& c.effect(EffectKind::Fade)->Fade_fade_in.bits == 0
    &&& c.effect(EffectKind::Fade)->Fade_fade_out.bits == 0
    &&& c.effect(EffectKind::Dissolve)->Dissolve_dissolve_in.bits == 0
    &&& c.effect(EffectKind::Dissolve)->Dissolve_dissolve_out.bits == 0
}

proof fn lemma_effect_at(c: ClipView, kind: EffectKind, k: int)
    requires
        0 <= k < c.video_effects.len(),
        c.video_effects[k].kind() == kind,
        forall|j: int| 0 <= j < k ==> (#[trigger] c.video_effects[j]).kind() != kind,
    ensures
        c.effect(kind) == c.video_effects[k],
{
    let p = |e: crate::effect::VideoEffect| e.kind() == kind;
    assert forall|j: int| 0 <= j < k implies !p(#[trigger] c.video_effects[j]) by {}
    crate::lists::lemma_first_is(c.video_effects, p, k);
}

proof fn lemma_new_clip(
    id: u64,
    label: Seq<char>,
    path: Seq<char>,
    start: int,
    duration: int,
    group: Option<u64>,
)
    ensures
        shows_file(new_clip(id, label, path, start, duration, group), path, start, duration),
{
    let c = new_clip(id, label, path, start, duration, group);
    lemma_effect_at(c, EffectKind::ColorCorrection, 0);
    lemma_effect_at(c, EffectKind::Transform, 1);
    lemma_effect_at(c, EffectKind::Opacity, 3);
    lemma_effect_at(c, EffectKind::GaussianBlur, 4);
    lemma_effect_at(c, EffectKind::Fade, 7);
    lemma_effect_at(c, EffectKind::Dissolve, 8);
}

/// Whether a row is another with one clip more, in order.
pub open spec fn is_added(before: Lane, after: Lane, c: ClipView) -> bool {
    &&& after.to_multiset() == before.to_multiset().insert(c)
    &&& in_order(after, |x: ClipView| x.start)
}

proof fn lemma_added(before: Lane, c: ClipView)
    ensures
        is_added(before, by_start(before.push(c)), c),
{
    broadcast use vstd::seq_lib::group_to_multiset_ensures;

    ordered_is_sorted_permutation(before.push(c), |x: ClipView| x.start);
    assert(before.push(c).to_multiset() =~= before.to_multiset().insert(c));
}

proof fn lemma_lane_end(clips: Lane)
    ensures
        clips.len() == 0 ==> lane_end(clips) == 0,
        clips.len() > 0 && (forall|j: int|
            0 <= j < clips.len() ==> 0 <= (#[trigger] clips[j]).start + clips[j].duration
                <= MAX_NANOS) ==> exists|j: int|
            0 <= j < clips.len() && (#[trigger] clips[j]).start + clips[j].duration == lane_end(
                clips,
            ),
    decreases clips.len(),
{
    if clips.len() > 0 && forall|j: int|
        0 <= j < clips.len() ==> 0 <= (#[trigger] clips[j]).start + clips[j].duration
            <= MAX_NANOS {
        let front = clips.drop_last();
        assert forall|j: int| 0 <= j < front.len() implies 0 <= (#[trigger] front[j]).start
            + front[j].duration <= MAX_NANOS by {
            assert(front[j] == clips[j]);
        }
        lemma_lane_end(front);
        let n = clips.len() - 1;
        assert(0 <= clips[n].start + clips[n].duration <= MAX_NANOS);
        if lane_end(clips) == clips[n].start + clips[n].duration {
        } else {
            let j = choose|j: int|
                0 <= j < front.len() && (#[trigger] front[j]).start + front[j].duration
                    == lane_end(front);
            assert(clips[j] == front[j]);
        }
    }
}

/// Whether a time is the end of a row: the start of the timeline where the row is empty, else the time
/// at which a clip ends and after which none does.
pub open spec fn is_end_of(lane: Lane, t: int) -> bool {
    if lane.len() == 0 {
        t == 0
    } else {
        &&& exists|j: int| 0 <= j < lane.len() && (#[trigger] lane[j]).start + lane[j].duration == t
        &&& forall|j: int| 0 <= j < lane.len() ==> (#[trigger] lane[j]).start + lane[j].duration <= t
    }
}

/// The active source comes to the main track as a clip that shows the whole of it, with its sound on
/// the audio track in front, at the same time and linked with it alone. A magnetic track takes it at
/// its end, and the playhead goes there; another one at the playhead. The picture is selected.
pub proof fn inserted_source_is_shown(s: StateView, duration: int)
    requires
        s.media.active_source_path.len() > 0,
        s.next_clip_id < u64::MAX - 1,
        largest_group(s.timeline.with_primary_audio().all_clips()) < u64::MAX,
        forall|j: int|
            0 <= j < s.timeline.v1_clips.len() ==> 0 <= (#[trigger] s.timeline.v1_clips[j]).start
                + s.timeline.v1_clips[j].duration <= MAX_NANOS,
    ensures
        ({
            let after = s.source_on_v1(duration);
            let t = s.timeline.with_primary_audio();
            exists|picture: ClipView, sound: ClipView|
                {
                    &&& #[trigger] is_added(s.timeline.v1_clips, after.timeline.v1_clips, picture)
                    &&& #[trigger] is_added(
                        t.audio_tracks[0].clips,
                        after.timeline.audio_tracks[0].clips,
                        sound,
                    )
                    &&& shows_file(picture, s.media.active_source_path, picture.start, duration)
                    &&& shows_file(sound, s.media.active_source_path, picture.start, duration)
                    &&& picture.link_group_id is Some
                    &&& picture.link_group_id == sound.link_group_id
                    &&& forall|c: ClipView|
                        #[trigger] t.all_clips().contains(c) ==> c.link_group_id
                            != picture.link_group_id
                    &&& picture.id != sound.id
                    &&& after.selection.selected_clip_id == Some(picture.id)
                    &&& if s.v1_move_mode is Magnetic {
                        is_end_of(s.timeline.v1_clips, picture.start) && after.timeline.playhead
                            == picture.start
                    } else {
                        picture.start == s.timeline.playhead && after.timeline.playhead
                            == s.timeline.playhead
                    }
                    &&& after.timeline.video_tracks == s.timeline.video_tracks
                    &&& after.timeline.subtitle_tracks == s.timeline.subtitle_tracks
                }
        }),
{
    reveal(TimelineView::source_inserted);
    reveal(TimelineView::with_primary_audio);
    saving_keeps_all_else(s, false);
    let t = s.timeline.with_primary_audio();
    let start = s.timeline.insert_time(s.v1_move_mode);
    let group = Some(t.free_group());
    let path = s.media.active_source_path;
    let name = s.media.active_source_name;
    let a = crate::placing::next_number(s.next_clip_id);
    let picture = new_clip(s.next_clip_id, name, path, start, duration, group);
    let sound = new_clip(a, "(Audio) "@ + name, path, start, duration, group);
    lemma_new_clip(s.next_clip_id, name, path, start, duration, group);
    lemma_new_clip(a, "(Audio) "@ + name, path, start, duration, group);
    lemma_added(s.timeline.v1_clips, picture);
    lemma_added(t.audio_tracks[0].clips, sound);
    assert forall|c: ClipView| #[trigger] t.all_clips().contains(c) implies c.link_group_id
        != picture.link_group_id by {
        free_group_is_free(t, c);
    }
    lemma_lane_end(s.timeline.v1_clips);
    assert forall|j: int| 0 <= j < s.timeline.v1_clips.len() implies (
    #[trigger] s.timeline.v1_clips[j]).start + s.timeline.v1_clips[j].duration <= lane_end(
        s.timeline.v1_clips,
    ) by {
        crate::placing::lane_end_is_last(s.timeline.v1_clips, j);
    }
    let after = s.source_on_v1(duration);
    assert(is_added(s.timeline.v1_clips, after.timeline.v1_clips, picture));
    assert(is_added(
        t.audio_tracks[0].clips,
        after.timeline.audio_tracks[0].clips,
        sound,
    ));
}

/// The active source comes to another row at the playhead, as a clip that shows the whole of it and is
/// linked with nothing, and is selected. Nothing else changes.
pub proof fn dropped_source_is_shown(s: StateView, lane: int, prefix: Seq<char>, duration: int)
    requires
        s.media.active_source_path.len() > 0,
        0 <= lane < s.timeline.lane_count(),
    ensures
        ({
            let after = s.source_in_lane(lane, prefix, duration);
            &&& after.timeline == s.timeline.with_lane(lane, after.timeline.lane(lane))
            &&& exists|c: ClipView|
                #[trigger] is_added(s.timeline.lane(lane), after.timeline.lane(lane), c)
                    && shows_file(
                    c,
                    s.media.active_source_path,
                    s.timeline.playhead,
                    duration,
                ) && c.link_group_id is None && after.selection.selected_clip_id == Some(c.id)
                    && c.id == s.next_clip_id
        }),
{
    reveal(TimelineView::clip_dropped);
    saving_keeps_all_else(s, false);
    let t = s.timeline;
    let c = new_clip(
        s.next_clip_id,
        prefix + s.media.active_source_name,
        s.media.active_source_path,
        t.playhead,
        duration,
        None,
    );
    lemma_new_clip(
        s.next_clip_id,
        prefix + s.media.active_source_name,
        s.media.active_source_path,
        t.playhead,
        duration,
        None,
    );
    lemma_added(t.lane(lane), c);
    let row = by_start(t.lane(lane).push(c));
    lemma_lanes_put(t, t.lanes().update(lane, row));
    assert(t.with_lane(lane, row).lane(lane) == t.with_lane(lane, row).lanes()[lane]);
}

// ---------------------------------------------------------------------------
// Deleted clips
// ---------------------------------------------------------------------------

/// Whether an id is to go with others: it is one of them, or that of a clip that is linked with one of
/// them.
pub open spec fn goes_with(t: TimelineView, ids: Seq<u64>, id: u64) -> bool {
    ids.contains(id) || exists|c: ClipView, d: ClipView|
        #[trigger] t.all_clips().contains(c) && #[trigger] t.all_clips().contains(d) && c.id == id
            && ids.contains(d.id) && c.link_group_id is Some && c.link_group_id == d.link_group_id
}

proof fn lemma_goes(t: TimelineView, ids: Seq<u64>, id: u64)
    ensures
        in_expansion(t.all_clips(), ids, id) == goes_with(t, ids, id),
{
    let all = t.all_clips();
    if in_expansion(all, ids, id) && !ids.contains(id) {
        let i = choose|i: int|
            0 <= i < all.len() && (#[trigger] all[i]).id == id && crate::anchors::is_companion(
                all,
                ids,
                all[i],
            );
        let group = all[i].link_group_id->0;
        let j = choose|j: int|
            0 <= j < all.len() && ids.contains((#[trigger] all[j]).id) && all[j].link_group_id
                == Some(group);
        assert(all.contains(all[i]) && all.contains(all[j]));
    }
    if goes_with(t, ids, id) && !ids.contains(id) {
        let (c, d) = choose|c: ClipView, d: ClipView|
            #[trigger] t.all_clips().contains(c) && #[trigger] t.all_clips().contains(d) && c.id
                == id && ids.contains(d.id) && c.link_group_id is Some && c.link_group_id
                == d.link_group_id;
        let i = choose|i: int| 0 <= i < all.len() && all[i] == c;
        let j = choose|j: int| 0 <= j < all.len() && all[j] == d;
        assert(all[i].id == id);
        assert(ids.contains(all[j].id) && all[j].link_group_id == Some(c.link_group_id->0));
        assert(crate::anchors::touches_group(all, ids, c.link_group_id->0));
        assert(crate::anchors::is_companion(all, ids, all[i]));
    }
}

/// A clip without its start.
pub open spec fn without_start(c: ClipView) -> ClipView {
    ClipView { start: 0, ..c }
}

/// Whether a row has a clip, at whatever time.
pub open spec fn has_at_some_time(lane: Lane, c: ClipView) -> bool {
    exists|k: int| 0 <= k < lane.len() && without_start(#[trigger] lane[k]) == c
}

/// Whether two rows have the same clips, at whatever times.
pub open spec fn same_clips(a: Lane, b: Lane) -> bool {
    &&& a.len() == b.len()
    &&& forall|c: ClipView| #[trigger] has_at_some_time(a, c) <==> has_at_some_time(b, c)
}

proof fn lemma_same_pointwise(a: Lane, b: Lane)
    requires
        a.len() == b.len(),
        forall|k: int| 0 <= k < a.len() ==> without_start(#[trigger] b[k]) == without_start(a[k]),
    ensures
        same_clips(a, b),
{
    assert forall|c: ClipView| #[trigger] has_at_some_time(a, c) <==> has_at_some_time(b, c) by {
        if has_at_some_time(a, c) {
            let k = choose|k: int| 0 <= k < a.len() && without_start(#[trigger] a[k]) == c;
            assert(without_start(b[k]) == c);
        }
        if has_at_some_time(b, c) {
            let k = choose|k: int| 0 <= k < b.len() && without_start(#[trigger] b[k]) == c;
            assert(without_start(a[k]) == c);
        }
    }
}

proof fn lemma_same_in_order(a: Lane)
    ensures
        same_clips(a, by_start(a)),
{
    broadcast use vstd::seq_lib::group_to_multiset_ensures;

    let b = by_start(a);
    ordered_is_sorted_permutation(a, |c: ClipView| c.start);
    assert forall|c: ClipView| #[trigger] has_at_some_time(a, c) <==> has_at_some_time(b, c) by {
        if has_at_some_time(a, c) {
            let k = choose|k: int| 0 <= k < a.len() && without_start(#[trigger] a[k]) == c;
            assert(a.contains(a[k]));
            assert(a.to_multiset().count(a[k]) > 0);
            assert(b.contains(a[k]));
            let m = choose|m: int| 0 <= m < b.len() && b[m] == a[k];
            assert(without_start(b[m]) == c);
        }
        if has_at_some_time(b, c) {
            let k = choose|k: int| 0 <= k < b.len() && without_start(#[trigger] b[k]) == c;
            assert(b.contains(b[k]));
            assert(b.to_multiset().count(b[k]) > 0);
            assert(a.contains(b[k]));
            let m = choose|m: int| 0 <= m < a.len() && a[m] == b[k];
            assert(without_start(a[m]) == c);
        }
    }
}

/// The clips of a row that do not go with others.
pub open spec fn rest_of(lane: Lane, t: TimelineView, ids: Seq<u64>) -> Lane {
    lane.filter(|c: ClipView| !goes_with(t, ids, c.id))
}

proof fn lemma_filter_same(
    s: Lane,
    p: spec_fn(ClipView) -> bool,
    q: spec_fn(ClipView) -> bool,
)
    requires
        forall|c: ClipView| #[trigger] p(c) == q(c),
    ensures
        s.filter(p) == s.filter(q),
    decreases s.len(),
{
    reveal(Seq::filter);
    if s.len() > 0 {
        lemma_filter_same(s.drop_last(), p, q);
        assert(p(s.last()) == q(s.last()));
    }
}

proof fn lemma_rest(lane: Lane, t: TimelineView, ids: Seq<u64>)
    ensures
        lane_without(lane, |id: u64| in_expansion(t.all_clips(), ids, id)) == rest_of(lane, t, ids),
{
    let goes = |id: u64| in_expansion(t.all_clips(), ids, id);
    let p = |c: ClipView| !goes(c.id);
    let q = |c: ClipView| !goes_with(t, ids, c.id);
    assert forall|c: ClipView| #[trigger] p(c) == q(c) by {
        lemma_goes(t, ids, c.id);
    }
    lemma_filter_same(lane, p, q);
}

/// Whether clips stand one behind the other from the start on.
pub open spec fn is_closed_up(lane: Lane) -> bool {
    forall|k: int|
        0 <= k < lane.len() ==> (#[trigger] lane[k]).start == if k == 0 {
            0
        } else {
            lane[k - 1].start + lane[k - 1].duration
        }
}

/// Deleting clips takes them and the clips that are linked with them out of every row, and no others;
/// what is left keeps all but its time. The main track is closed up from its start on where it lost a
/// clip; where it lost none, nothing moves.
pub proof fn deleting_leaves_the_rest(t: TimelineView, ids: Seq<u64>, i: int)
    requires
        ids.len() > 0,
        0 <= i < t.lane_count(),
        total_length(t.v1_clips) <= MAX_NANOS,
        forall|k: int| 0 <= k < t.v1_clips.len() ==> (#[trigger] t.v1_clips[k]).duration >= 0,
    ensures
        ({
            let after = t.clips_deleted(ids);
            &&& after.lane_count() == t.lane_count()
            &&& same_clips(rest_of(t.lane(i), t, ids), after.lane(i))
            &&& if rest_of(t.v1_clips, t, ids) == t.v1_clips {
                after.lane(i) == rest_of(t.lane(i), t, ids)
            } else {
                is_closed_up(after.v1_clips)
            }
        }),
{
    reveal(TimelineView::clips_deleted);
    reveal(TimelineView::without_clips);
    reveal(TimelineView::following_v1);
    let goes = |id: u64| in_expansion(t.all_clips(), ids, id);
    let after = t.clips_deleted(ids);
    let rows = Seq::new(
        t.lane_count(),
        |j: int|
            if j == 0 {
                v1_without(t.lane(0), goes)
            } else {
                lane_without(t.lane(j), goes)
            },
    );
    lemma_lanes_put(t, rows);
    let u = t.with_lanes(rows);
    assert(u.lane(0) == u.lanes()[0]);
    assert(u.lane(i) == u.lanes()[i]);
    assert(t.lane(0) == t.v1_clips);
    lemma_rest(t.v1_clips, t, ids);
    lemma_rest(t.lane(i), t, ids);
    let left = lane_without(t.v1_clips, goes);
    let row = lane_without(t.lane(i), goes);
    lemma_filter_keeps_all(t.v1_clips, |c: ClipView| !goes(c.id));
    if left.len() == t.v1_clips.len() {
        lemma_same_pointwise(row, row);
    } else {
        let sorted = by_start(left);
        lemma_closed_up(t.v1_clips, |c: ClipView| !goes(c.id));
        lemma_same_in_order(left);
        reveal(packed);
        lemma_same_pointwise(sorted, packed(sorted));
        let delta_of = crate::anchors::following(t.v1_clips, u.v1_clips);
        let moved = Seq::new(
            u.lane_count(),
            |j: int|
                if j == 0 {
                    u.lane(0)
                } else {
                    crate::links::lane_shifted(u.lane(j), delta_of)
                },
        );
        lemma_lanes_put(u, moved);
        assert(after.lane(i) == after.lanes()[i]);
        assert(after.lane(0) == after.lanes()[0]);
        if i > 0 {
            let all = crate::links::lane_moved(row, delta_of);
            lemma_same_pointwise(row, all);
            lemma_same_in_order(all);
            lemma_same_pointwise(row, row);
        }
    }
}

/// What is left of clips, in order and packed, stands one behind the other.
proof fn lemma_closed_up(clips: Lane, p: spec_fn(ClipView) -> bool)
    requires
        total_length(clips) <= MAX_NANOS,
        forall|k: int| 0 <= k < clips.len() ==> (#[trigger] clips[k]).duration >= 0,
    ensures
        is_closed_up(packed(by_start(clips.filter(p)))),
{
    let left = clips.filter(p);
    let sorted = by_start(left);
    lemma_filter_total(clips, p);
    lemma_ordered_total(left);
    let q = |c: ClipView| c.duration >= 0;
    assert forall|k: int| 0 <= k < left.len() implies q(#[trigger] left[k]) by {
        lemma_filter_keeps_all(clips, p);
        assert(left.contains(left[k]));
        let m = choose|m: int| 0 <= m < clips.len() && clips[m] == left[k];
        assert(clips[m].duration >= 0);
    }
    crate::razor::lemma_ordered_all(left, |c: ClipView| c.start, q);
    assert forall|k: int| 0 <= k < sorted.len() implies (#[trigger] sorted[k]).duration >= 0 by {
        assert(q(ordered(left, |c: ClipView| c.start)[k]));
    }
    let after = packed(sorted);
    assert forall|k: int| 0 <= k < after.len() implies (#[trigger] after[k]).start == if k == 0 {
        0
    } else {
        after[k - 1].start + after[k - 1].duration
    } by {
        reveal(packed);
        crate::moves::packed_is_contiguous(sorted, k);
    }
}

proof fn lemma_filter_total(clips: Lane, p: spec_fn(ClipView) -> bool)
    requires
        forall|k: int| 0 <= k < clips.len() ==> (#[trigger] clips[k]).duration >= 0,
    ensures
        total_length(clips.filter(p)) <= total_length(clips),
    decreases clips.len(),
{
    reveal(Seq::filter);
    if clips.len() > 0 {
        let front = clips.drop_last();
        assert forall|k: int| 0 <= k < front.len() implies (#[trigger] front[k]).duration >= 0 by {
            assert(clips[k].duration >= 0);
        }
        lemma_filter_total(front, p);
        assert(clips[clips.len() - 1].duration >= 0);
        if p(clips.last()) {
            let kept = front.filter(p);
            assert(kept.push(clips.last()).drop_last() =~= kept);
        }
    }
}

proof fn lemma_insert_total(clips: Lane, at: int, c: ClipView)
    requires
        0 <= at <= clips.len(),
    ensures
        total_length(clips.insert(at, c)) == total_length(clips) + c.duration,
    decreases clips.len(),
{
    let out = clips.insert(at, c);
    if at == clips.len() {
        assert(out.drop_last() =~= clips);
    } else {
        lemma_insert_total(clips.drop_last(), at, c);
        assert(out.drop_last() =~= clips.drop_last().insert(at, c));
        assert(out.last() == clips.last());
    }
}

proof fn lemma_ordered_total(clips: Lane)
    ensures
        total_length(by_start(clips)) == total_length(clips),
    decreases clips.len(),
{
    if clips.len() > 0 {
        let key = |c: ClipView| c.start;
        let front = ordered(clips.drop_last(), key);
        lemma_ordered_total(clips.drop_last());
        crate::order::lemma_rank(front, key(clips.last()), key);
        lemma_insert_total(
            front,
            crate::order::rank(front, key(clips.last()), key),
            clips.last(),
        );
    }
}

/// Deleting the selection takes the selected subtitles out and no others, and leaves nothing selected.
pub proof fn deleting_leaves_other_subtitles(
    s: StateView,
    clip_ids: Seq<u64>,
    subtitle_ids: Seq<u64>,
    semantic_id: Option<u64>,
    k: int,
)
    requires
        0 <= k < s.timeline.subtitle_tracks.len(),
    ensures
        ({
            let after = s.listed_deleted(clip_ids, subtitle_ids, semantic_id);
            &&& after.timeline.subtitle_tracks.len() == s.timeline.subtitle_tracks.len()
            &&& forall|c: SubtitleClipView|
                #[trigger] after.timeline.subtitle_tracks[k].clips.contains(c)
                    <==> s.timeline.subtitle_tracks[k].clips.contains(c) && !subtitle_ids.contains(
                    c.id,
                )
            &&& after.selection.selected_clip_id is None
            &&& after.selection.selected_clip_ids.len() == 0
            &&& after.selection.selected_subtitle_id is None
            &&& after.selection.selected_subtitle_ids.len() == 0
            &&& after.timeline.selected_semantic_clip_id is None
            &&& after.timeline.selected_layer_effect_clip_id is None
            &&& forall|c: crate::tracks::SemanticClipView|
                #[trigger] after.timeline.semantic_clips.contains(c)
                    <==> s.timeline.semantic_clips.contains(c) && semantic_id != Some(c.id)
        }),
{
    reveal(TimelineView::clips_deleted);
    reveal(TimelineView::without_clips);
    reveal(TimelineView::following_v1);
    reveal(TimelineView::subtitles_deleted);
    reveal(TimelineView::items_deleted);
    reveal(StateView::listed_deleted);
    saving_keeps_all_else(s, false);
    let t = s.timeline;
    let p = |c: SubtitleClipView| !subtitle_ids.contains(c.id);
    lemma_filter_keeps_all(t.subtitle_tracks[k].clips, p);
    let cut = t.clips_deleted(clip_ids);
    assert(cut.subtitle_tracks == t.subtitle_tracks);
    assert(cut.semantic_clips == t.semantic_clips);
    if let Some(x) = semantic_id {
        let q = |c: crate::tracks::SemanticClipView| c.id != x;
        lemma_filter_keeps_all(t.semantic_clips, q);
    }
}

// ---------------------------------------------------------------------------
// Lengths
// ---------------------------------------------------------------------------

/// A clip that is given another length has it, but no less than a tenth of a second and no more than
/// its file holds; a still picture lasts for a day at most. Nothing else changes.
pub proof fn resized_clip_has_its_length(
    t: TimelineView,
    track: TrackType,
    clip_id: u64,
    duration: int,
    at: int,
)
    requires
        t.lane_of(track) < t.lane_count(),
        0 <= t.lane_of(track),
        is_place_of(t.lane(t.lane_of(track)), at, clip_id),
        ({
            let c = t.lane(t.lane_of(track))[at];
            is_still(c.file_path) || c.source_in + 100_000_000 <= c.media_duration
        }),
    ensures
        ({
            let i = t.lane_of(track);
            let row = t.lane(i);
            let c = row[at];
            let after = t.clip_resized(track, clip_id, duration);
            let d = after.lane(i)[at].duration;
            let most = if is_still(c.file_path) {
                86_400_000_000_000
            } else {
                c.media_duration - c.source_in
            };
            &&& after == t.with_lane(i, row.update(at, ClipView { duration: d, ..c }))
            &&& 100_000_000 <= d <= most
            &&& 100_000_000 <= duration <= most ==> d == duration
            &&& duration < 100_000_000 ==> d == 100_000_000
            &&& duration > most ==> d == most
        }),
{
    reveal(TimelineView::clip_resized);
    let i = t.lane_of(track);
    let row = t.lane(i);
    lemma_place(row, at, clip_id);
    let out = row.update(at, crate::removal::resized(row[at], duration));
    lemma_lanes_put(t, t.lanes().update(i, out));
    assert(t.with_lane(i, out).lane(i) == t.with_lane(i, out).lanes()[i]);
    assert(out[at] == (ClipView { duration: out[at].duration, ..row[at] }));
}

/// A subtitle that is given another length has it, but no less than a tenth of a second. Nothing else
/// changes.
pub proof fn resized_subtitle_has_its_length(t: TimelineView, track: int, at: int, duration: int)
    requires
        0 <= track < t.subtitle_tracks.len(),
        0 <= at < t.subtitle_tracks[track].clips.len(),
        forall|j: int|
            0 <= j < at ==> (#[trigger] t.subtitle_tracks[track].clips[j]).id
                != t.subtitle_tracks[track].clips[at].id,
    ensures
        ({
            let row = t.subtitle_tracks[track].clips;
            let after = t.subtitle_resized(track, row[at].id, duration);
            let d = if duration < 100_000_000 {
                100_000_000
            } else {
                duration
            };
            &&& after.subtitle_tracks[track].clips == row.update(
                at,
                SubtitleClipView { duration: d, ..row[at] },
            )
            &&& after == (TimelineView {
                subtitle_tracks: t.subtitle_tracks.update(track, after.subtitle_tracks[track]),
                ..t
            })
        }),
{
    reveal(TimelineView::subtitle_resized);
    let row = t.subtitle_tracks[track].clips;
    lemma_subtitle_place(row, at);
    let after = t.subtitle_resized(track, row[at].id, duration);
    assert(after.subtitle_tracks =~= t.subtitle_tracks.update(track, after.subtitle_tracks[track]));
}

proof fn lemma_subtitle_place(row: Seq<SubtitleClipView>, at: int)
    requires
        0 <= at < row.len(),
        forall|j: int| 0 <= j < at ==> (#[trigger] row[j]).id != row[at].id,
    ensures
        crate::moves::subtitle_place(row, row[at].id) == at,
{
    let id = row[at].id;
    let p = |c: SubtitleClipView| c.id == id;
    assert forall|j: int| 0 <= j < at implies !p(#[trigger] row[j]) by {}
    crate::lists::lemma_first_is(row, p, at);
}

// ---------------------------------------------------------------------------
// Copies
// ---------------------------------------------------------------------------

/// A copy of a clip on the main track stands where it was put and shows what the clip shows, in the
/// same way; it is linked with nothing and selected. The clips that start there or behind it go on by
/// its length, and those before it stay.
pub proof fn copy_on_the_main_track(s: StateView, c: ClipView, start: int)
    requires
        start + c.duration <= MAX_NANOS,
        c.duration >= 0,
        forall|k: int|
            0 <= k < s.timeline.v1_clips.len() ==> (#[trigger] s.timeline.v1_clips[k]).start
                + c.duration <= MAX_NANOS,
    ensures
        ({
            let before = s.timeline.v1_clips;
            let after = s.copied(TrackType::V1, c, start);
            let out = after.timeline.v1_clips;
            let copy = ClipView {
                id: s.next_clip_id,
                start,
                link_group_id: None,
                dissolve_trim_in: 0,
                dissolve_trim_out: 0,
                ..c
            };
            &&& out.len() == before.len() + 1
            &&& out.contains(copy)
            &&& in_order(out, |x: ClipView| x.start)
            &&& forall|k: int|
                0 <= k < before.len() ==> out.contains(
                    if (#[trigger] before[k]).start >= start {
                        ClipView { start: before[k].start + c.duration, ..before[k] }
                    } else {
                        before[k]
                    },
                )
            &&& after.selection.selected_clip_id == Some(s.next_clip_id)
            &&& after.selection.selected_clip_ids == seq![s.next_clip_id]
        }),
{
    broadcast use vstd::seq_lib::group_to_multiset_ensures;

    reveal(StateView::copied);
    reveal(TimelineView::clip_duplicated);
    reveal(TimelineView::following_v1);
    saving_keeps_all_else(s, false);
    let before = s.timeline.v1_clips;
    let copy = duplicate_of(c, s.next_clip_id, start);
    let room = with_room(before, start, c.duration);
    let all = room.push(copy);
    let out = by_start(all);
    ordered_is_sorted_permutation(all, |x: ClipView| x.start);
    assert(all[all.len() - 1] == copy);
    assert(all.contains(copy));
    assert(all.to_multiset().count(copy) > 0);
    assert(out.contains(copy));
    assert forall|k: int| 0 <= k < before.len() implies out.contains(
        if (#[trigger] before[k]).start >= start {
            ClipView { start: before[k].start + c.duration, ..before[k] }
        } else {
            before[k]
        },
    ) by {
        let x = all[k];
        assert(all.contains(x));
        assert(all.to_multiset().count(x) > 0);
        assert(out.contains(x));
    }
    let u = TimelineView { v1_clips: out, ..s.timeline };
    let after = s.copied(TrackType::V1, c, start);
    assert(u.following_v1(before).v1_clips == u.lane(0));
    assert(after.timeline.v1_clips == out);
}

/// A copy of a clip on another row stands where it was put and shows what the clip shows, in the same
/// way; it is linked with nothing and selected. Nothing else changes.
pub proof fn copy_on_another_row(s: StateView, track: TrackType, c: ClipView, start: int)
    requires
        track != TrackType::V1,
        0 <= s.timeline.lane_of(track) < s.timeline.lane_count(),
    ensures
        ({
            let i = s.timeline.lane_of(track);
            let after = s.copied(track, c, start);
            let copy = ClipView {
                id: s.next_clip_id,
                start,
                link_group_id: None,
                dissolve_trim_in: 0,
                dissolve_trim_out: 0,
                ..c
            };
            &&& is_added(s.timeline.lane(i), after.timeline.lane(i), copy)
            &&& after.timeline == s.timeline.with_lane(
                i,
                after.timeline.lane(i),
            ).nothing_selected()
            &&& after.selection.selected_clip_id == Some(s.next_clip_id)
        }),
{
    reveal(StateView::copied);
    reveal(TimelineView::clip_duplicated);
    saving_keeps_all_else(s, false);
    let t = s.timeline;
    let i = t.lane_of(track);
    let copy = duplicate_of(c, s.next_clip_id, start);
    lemma_added(t.lane(i), copy);
    let row = by_start(t.lane(i).push(copy));
    lemma_lanes_put(t, t.lanes().update(i, row));
    let u = t.with_lane(i, row);
    assert(u.lane(i) == u.lanes()[i]);
    assert(u.nothing_selected().lane(i) == u.lane(i));
}

/// A copy of a subtitle stands where it was put, shows the same text in the same way for as long, and
/// is selected. Nothing else changes.
pub proof fn copy_of_a_subtitle(s: StateView, track: int, c: SubtitleClipView, start: int)
    requires
        0 <= track < s.timeline.subtitle_tracks.len(),
    ensures
        ({
            let after = s.subtitle_copied(track, c, start);
            let row = s.timeline.subtitle_tracks[track].clips;
            let out = after.timeline.subtitle_tracks[track].clips;
            &&& out.to_multiset() == row.to_multiset().insert(
                SubtitleClipView { id: s.next_clip_id, start, ..c },
            )
            &&& in_order(out, |x: SubtitleClipView| x.start)
            &&& after.selection.selected_subtitle_id == Some(s.next_clip_id)
            &&& forall|k: int|
                0 <= k < s.timeline.subtitle_tracks.len() && k != track
                    ==> #[trigger] after.timeline.subtitle_tracks[k]
                    == s.timeline.subtitle_tracks[k]
        }),
{
    broadcast use vstd::seq_lib::group_to_multiset_ensures;

    reveal(StateView::subtitle_copied);
    reveal(TimelineView::with_subtitle);
    saving_keeps_all_else(s, false);
    let row = s.timeline.subtitle_tracks[track].clips;
    let x = SubtitleClipView { id: s.next_clip_id, start, ..c };
    ordered_is_sorted_permutation(row.push(x), |y: SubtitleClipView| y.start);
    assert(row.push(x).to_multiset() =~= row.to_multiset().insert(x));
}

/// A subtitle that is added shows its text from its start for its length, in white, and is selected.
/// Nothing else changes.
pub proof fn added_subtitle_is_shown(
    s: StateView,
    track: int,
    start: int,
    duration: int,
    text: Seq<char>,
)
    requires
        0 <= track < s.timeline.subtitle_tracks.len(),
    ensures
        ({
            let after = s.subtitle_added(track, start, duration, text);
            let row = s.timeline.subtitle_tracks[track].clips;
            let out = after.timeline.subtitle_tracks[track].clips;
            exists|c: SubtitleClipView|
                {
                    &&& out.to_multiset() == #[trigger] row.to_multiset().insert(c)
                    &&& c.id == s.next_clip_id
                    &&& c.text == text
                    &&& c.start == start
                    &&& c.duration == duration
                    &&& c.color_rgba == (255u8, 255u8, 255u8, 255u8)
                    &&& c.group_id is None
                    &&& in_order(out, |x: SubtitleClipView| x.start)
                    &&& after.selection.selected_subtitle_id == Some(c.id)
                }
        }),
{
    broadcast use vstd::seq_lib::group_to_multiset_ensures;

    saving_keeps_all_else(s, false);
    let row = s.timeline.subtitle_tracks[track].clips;
    let c = crate::srt::new_subtitle(s.next_clip_id, text, start, duration);
    ordered_is_sorted_permutation(row.push(c), |y: SubtitleClipView| y.start);
    assert(row.push(c).to_multiset() =~= row.to_multiset().insert(c));
}

// ---------------------------------------------------------------------------
// Links
// ---------------------------------------------------------------------------

proof fn lemma_regrouped(
    t: TimelineView,
    pick: spec_fn(ClipView) -> bool,
    group: Option<u64>,
    i: int,
    k: int,
)
    requires
        0 <= i < t.lane_count(),
        0 <= k < t.lane(i).len(),
    ensures
        ({
            let after = t.regrouped(pick, group);
            &&& after.lane_count() == t.lane_count()
            &&& after.lane(i).len() == t.lane(i).len()
            &&& after.lane(i)[k] == if pick(t.lane(i)[k]) {
                ClipView { link_group_id: group, ..t.lane(i)[k] }
            } else {
                t.lane(i)[k]
            }
        }),
{
    let rows = Seq::new(t.lane_count(), |j: int| lane_regrouped(t.lane(j), pick, group));
    lemma_lanes_put(t, rows);
    let after = t.regrouped(pick, group);
    assert(after.lane(i) == after.lanes()[i]);
}

/// Linking the selected clips puts them into a link group that no other clip is in, and changes
/// nothing else. There have to be two of them at least.
pub proof fn linked_selection_is_alone(s: StateView, i: int, k: int)
    requires
        s.selection.clip_ids().len() >= 2,
        s.timeline.has_two_of(s.selection.clip_ids()),
        0 <= i < s.timeline.lane_count(),
        0 <= k < s.timeline.lane(i).len(),
        largest_group(s.timeline.all_clips()) < u64::MAX,
    ensures
        ({
            let group = Some(s.timeline.free_group());
            let after = s.selected_linked().timeline;
            let c = s.timeline.lane(i)[k];
            &&& after.lane_count() == s.timeline.lane_count()
            &&& after.lane(i).len() == s.timeline.lane(i).len()
            &&& if s.selection.clip_ids().contains(c.id) {
                after.lane(i)[k] == (ClipView { link_group_id: group, ..c })
            } else {
                after.lane(i)[k] == c && c.link_group_id != group
            }
        }),
{
    saving_keeps_all_else(s, false);
    let t = s.timeline;
    let ids = s.selection.clip_ids();
    lemma_regrouped(t, |c: ClipView| ids.contains(c.id), Some(t.free_group()), i, k);
    let c = t.lane(i)[k];
    assert(t.lanes()[i] == t.lane(i));
    assert(t.lanes()[i].contains(c));
    lemma_all_clips(t.lanes(), c);
    free_group_is_free(t, c);
}

/// Unlinking the selected clips leaves none of them in a link group, nor any clip that was in a group
/// of one of them, and changes nothing else.
pub proof fn unlinked_selection_is_free(s: StateView, i: int, k: int)
    requires
        0 <= i < s.timeline.lane_count(),
        0 <= k < s.timeline.lane(i).len(),
    ensures
        ({
            let ids = s.selection.clip_ids();
            let after = s.selected_unlinked().timeline;
            let c = s.timeline.lane(i)[k];
            let goes = c.link_group_id is Some && exists|n: int|
                0 <= n < ids.len() && #[trigger] s.timeline.group_of(ids[n]) == c.link_group_id;
            &&& after.lane_count() == s.timeline.lane_count()
            &&& after.lane(i).len() == s.timeline.lane(i).len()
            &&& after.lane(i)[k] == if goes {
                ClipView { link_group_id: None, ..c }
            } else {
                c
            }
        }),
{
    saving_keeps_all_else(s, false);
    let t = s.timeline;
    let ids = s.selection.clip_ids();
    let c = t.lane(i)[k];
    if t.any_linked(ids) {
        lemma_regrouped(t, t.shares_group(ids), None, i, k);
    } else if c.link_group_id is Some && exists|n: int|
        0 <= n < ids.len() && #[trigger] t.group_of(ids[n]) == c.link_group_id {
        let n = choose|n: int|
            0 <= n < ids.len() && #[trigger] t.group_of(ids[n]) == c.link_group_id;
        assert(t.group_of(ids[n]) is Some);
    }
    if c.link_group_id is Some {
        let group = c.link_group_id->0;
        if t.is_group_of(ids, group) {
            let n = choose|n: int|
                0 <= n < ids.len() && #[trigger] t.group_of(ids[n]) == Some(group);
            assert(t.group_of(ids[n]) == c.link_group_id);
        }
    }
}

// ---------------------------------------------------------------------------
// Looking around
// ---------------------------------------------------------------------------

/// The playhead goes where it is set, but not past the end of the timeline, at or behind which every
/// row ends.
pub proof fn playhead_stays_on_the_timeline(s: StateView, t: int, i: int)
    requires
        0 <= i < s.timeline.lane_count(),
        s.timeline.lane(i).len() > 0,
        s.timeline.lane(i).last().start + s.timeline.lane(i).last().duration <= MAX_NANOS,
    ensures
        ({
            let after = s.with_playhead(t);
            let end = s.timeline.lane(i).last().start + s.timeline.lane(i).last().duration;
            &&& after.timeline.playhead <= t
            &&& t <= end ==> after.timeline.playhead == t
            &&& t >= end ==> after.timeline.playhead >= end
            &&& after == (StateView {
                timeline: TimelineView { playhead: after.timeline.playhead, ..s.timeline },
                ..s
            })
        }),
{
    crate::navigation::length_covers_lanes(s.timeline, i);
    assert(last_end(s.timeline.lane(i)) == s.timeline.lane(i).last().start + s.timeline.lane(
        i,
    ).last().duration);
}

/// What is selected at a time is a clip that is shown then, the first one; if none is shown, nothing
/// is selected.
pub proof fn selected_clip_is_shown(lane: Lane, t: int)
    ensures
        match shown_id(lane, t) {
            Some(id) => exists|k: int|
                0 <= k < lane.len() && (#[trigger] lane[k]).id == id && lane[k].start <= t < lane[k].start
                    + lane[k].duration && forall|j: int|
                    0 <= j < k ==> !((#[trigger] lane[j]).start <= t < lane[j].start
                        + lane[j].duration),
            None => forall|k: int|
                0 <= k < lane.len() ==> !((#[trigger] lane[k]).start <= t < lane[k].start
                    + lane[k].duration),
        },
{
    let p = |c: ClipView| is_shown(c, t);
    lemma_first(lane, p);
    let at = first(lane, p);
    if at < lane.len() {
        assert(p(lane[at]));
        assert forall|j: int| 0 <= j < at implies !((#[trigger] lane[j]).start <= t < lane[j].start
            + lane[j].duration) by {
            assert(!p(lane[j]));
        }
    } else {
        assert forall|k: int| 0 <= k < lane.len() implies !((#[trigger] lane[k]).start <= t
            < lane[k].start + lane[k].duration) by {
            assert(!p(lane[k]));
        }
    }
}

// ---------------------------------------------------------------------------
// Generated media
// ---------------------------------------------------------------------------

/// The clips of the first track above the main one; none where there is no such track.
pub open spec fn clips_above(t: TimelineView) -> Lane {
    if t.video_tracks.len() == 0 {
        seq![]
    } else {
        t.video_tracks[0].clips
    }
}

/// Media that was generated for a marked stretch is shown from the start of the stretch, on the first
/// track above the main one: a still picture as long as the stretch, other media from its own start
/// and no longer than the stretch or than it is. The playhead goes there.
pub proof fn generated_media_is_shown(
    s: StateView,
    start: int,
    length: int,
    path: Seq<char>,
    name: Option<Seq<char>>,
    media: int,
)
    requires
        length >= 1_000_000,
        media >= 1_000_000,
    ensures
        ({
            let after = s.with_generated_media((start, length), path, name, media);
            let before = clips_above(s.timeline);
            &&& exists|c: ClipView|
                {
                    &&& #[trigger] is_added(before, after.timeline.video_tracks[0].clips, c)
                    &&& c.id == s.next_clip_id
                    &&& c.file_path == path
                    &&& c.start == start
                    &&& c.source_in == 0
                    &&& c.media_duration == media
                    &&& c.link_group_id is None
                    &&& crate::media_paths::still_name(path) ==> c.duration == length
                    &&& !crate::media_paths::still_name(path) && length <= media ==> c.duration
                        == length
                    &&& !crate::media_paths::still_name(path) && media < length ==> c.duration
                        == media
                }
            &&& after.timeline.playhead == start
            &&& after.timeline.v1_clips == s.timeline.v1_clips
            &&& after.timeline.audio_tracks == s.timeline.audio_tracks
            &&& after.timeline.subtitle_tracks == s.timeline.subtitle_tracks
            &&& forall|i: int|
                1 <= i < s.timeline.video_tracks.len() ==> #[trigger] after.timeline.video_tracks[i]
                    == s.timeline.video_tracks[i]
            &&& after.media.active_source_path == path
            &&& after.media.active_source_duration == media
        }),
{
    reveal(StateView::with_generated_media);
    reveal(TimelineView::with_generated);
    saving_keeps_all_else(s, true);
    let shown = crate::media_pool::name_or(name, "generated_asset"@);
    let c = crate::media_pool::generated_clip(s.next_clip_id, path, shown, start, length, media);
    let before = clips_above(s.timeline);
    lemma_added(before, c);
    let after = s.with_generated_media((start, length), path, name, media);
    assert(is_added(before, after.timeline.video_tracks[0].clips, c));
}

} // verus!
