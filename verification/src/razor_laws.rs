//! What a cut leaves of clips, their keyframes and subtitles.
use crate::clip::ClipView;
use crate::cuts::{linked_cut, linked_cuts, linked_straddler};
use crate::effect::ScalarKeyframe;
use crate::lanes::{lemma_lanes_put, lemma_lanes_put_back, Lane};
use crate::lists::{first, lemma_first};
use crate::order::{in_order, ordered_is_sorted_permutation};
use crate::razor::{
    cut_clip, cut_first, cut_first_subtitle, cut_place, first_straddler, group_of, keys_from,
    keys_until, straddles, subtitle_straddles,
};
use crate::ripple::lemma_filter_keeps_all;
use crate::state::StateView;
use crate::subtitle::SubtitleClipView;
use crate::tracks::TimelineView;
use vstd::prelude::*;

verus! {

// ---------------------------------------------------------------------------
// Keyframes
// ---------------------------------------------------------------------------

/// Whether a time is on a side of another: at it or behind it, or at it or before it.
pub open spec fn on_side(x: int, t: int, behind: bool) -> bool {
    if behind {
        x >= t
    } else {
        x <= t
    }
}

/// Whether keyframes come one behind the other.
pub open spec fn ascending(keys: Seq<ScalarKeyframe>) -> bool {
    forall|i: int, j: int|
        0 <= i < j < keys.len() ==> (#[trigger] keys[i]).time@ < (#[trigger] keys[j]).time@
}

/// Whether a keyframe among some stands at a time of the timeline with a value. The times of the
/// keyframes count from the start of their clip.
pub open spec fn key_stands(keys: Seq<ScalarKeyframe>, start: int, x: int, value: u32) -> bool {
    exists|i: int|
        0 <= i < keys.len() && start + (#[trigger] keys[i]).time@ == x && keys[i].value.bits == value
}

/// Whether the keyframes of a piece are those of the whole clip on a side of a time, each where it
/// was on the timeline and with its value, in the same order.
pub open spec fn keys_stay(
    whole: Seq<ScalarKeyframe>,
    start: int,
    piece: Seq<ScalarKeyframe>,
    piece_start: int,
    t: int,
    behind: bool,
) -> bool {
    &&& forall|x: int, value: u32| #[trigger]
        key_stands(piece, piece_start, x, value) <==> key_stands(whole, start, x, value) && on_side(
            x,
            t,
            behind,
        )
    &&& ascending(whole) ==> ascending(piece)
}

/// Whether that holds of the keyframes of every kind.
pub open spec fn all_keys_stay(c: ClipView, piece: ClipView, t: int, behind: bool) -> bool {
    let a = c.keyframes;
    let b = piece.keyframes;
    &&& keys_stay(a.pos_x, c.start, b.pos_x, piece.start, t, behind)
    &&& keys_stay(a.pos_y, c.start, b.pos_y, piece.start, t, behind)
    &&& keys_stay(a.scale, c.start, b.scale, piece.start, t, behind)
    &&& keys_stay(a.rotation, c.start, b.rotation, piece.start, t, behind)
    &&& keys_stay(a.brightness, c.start, b.brightness, piece.start, t, behind)
    &&& keys_stay(a.contrast, c.start, b.contrast, piece.start, t, behind)
    &&& keys_stay(a.saturation, c.start, b.saturation, piece.start, t, behind)
    &&& keys_stay(a.opacity, c.start, b.opacity, piece.start, t, behind)
    &&& keys_stay(a.blur, c.start, b.blur, piece.start, t, behind)
}

proof fn lemma_filter_ascending(keys: Seq<ScalarKeyframe>, p: spec_fn(ScalarKeyframe) -> bool)
    requires
        ascending(keys),
    ensures
        ascending(keys.filter(p)),
    decreases keys.len(),
{
    reveal(Seq::filter);
    if keys.len() > 0 {
        let front = keys.drop_last();
        assert forall|i: int, j: int| 0 <= i < j < front.len() implies (#[trigger] front[i]).time@
            < (#[trigger] front[j]).time@ by {
            assert(front[i] == keys[i] && front[j] == keys[j]);
        }
        lemma_filter_ascending(front, p);
        lemma_filter_keeps_all(front, p);
        let kept = front.filter(p);
        if p(keys.last()) {
            let out = kept.push(keys.last());
            assert forall|i: int, j: int| 0 <= i < j < out.len() implies (#[trigger] out[i]).time@ < (
            #[trigger] out[j]).time@ by {
                assert(kept.contains(kept[i]));
                assert(out[i] == kept[i]);
                let k = choose|k: int| 0 <= k < front.len() && front[k] == kept[i];
                assert(front[k] == keys[k]);
                if j < kept.len() {
                    assert(out[j] == kept[j]);
                }
            }
        }
    }
}

proof fn lemma_keys_until(keys: Seq<ScalarKeyframe>, start: int, d: int)
    ensures
        keys_stay(keys, start, keys_until(keys, d), start, start + d, false),
{
    let p = |k: ScalarKeyframe| k.time@ <= d;
    let piece = keys_until(keys, d);
    lemma_filter_keeps_all(keys, p);
    if ascending(keys) {
        lemma_filter_ascending(keys, p);
    }
    assert forall|x: int, value: u32| #[trigger]
        key_stands(piece, start, x, value) <==> key_stands(keys, start, x, value) && on_side(
            x,
            start + d,
            false,
        ) by {
        if key_stands(piece, start, x, value) {
            let i = choose|i: int|
                0 <= i < piece.len() && start + (#[trigger] piece[i]).time@ == x
                    && piece[i].value.bits == value;
            assert(piece.contains(piece[i]));
            let k = choose|k: int| 0 <= k < keys.len() && keys[k] == piece[i];
            assert(start + keys[k].time@ == x);
        }
        if key_stands(keys, start, x, value) && x <= start + d {
            let i = choose|i: int|
                0 <= i < keys.len() && start + (#[trigger] keys[i]).time@ == x
                    && keys[i].value.bits == value;
            assert(keys.contains(keys[i]) && p(keys[i]));
            assert(piece.contains(keys[i]));
            let k = choose|k: int| 0 <= k < piece.len() && piece[k] == keys[i];
            assert(start + piece[k].time@ == x);
        }
    }
}

proof fn lemma_keys_from(keys: Seq<ScalarKeyframe>, start: int, d: int)
    requires
        0 <= d,
    ensures
        keys_stay(keys, start, keys_from(keys, d), start + d, start + d, true),
{
    let p = |k: ScalarKeyframe| k.time@ >= d;
    let kept = keys.filter(p);
    let piece = keys_from(keys, d);
    lemma_filter_keeps_all(keys, p);
    assert forall|i: int| 0 <= i < kept.len() implies (#[trigger] piece[i]).time@ == kept[i].time@
        - d && piece[i].value == kept[i].value && p(kept[i]) by {
        assert(kept.contains(kept[i]));
    }
    if ascending(keys) {
        lemma_filter_ascending(keys, p);
        assert forall|i: int, j: int| 0 <= i < j < piece.len() implies (#[trigger] piece[i]).time@
            < (#[trigger] piece[j]).time@ by {
            assert(kept[i].time@ < kept[j].time@);
        }
    }
    assert forall|x: int, value: u32| #[trigger]
        key_stands(piece, start + d, x, value) <==> key_stands(keys, start, x, value) && on_side(
            x,
            start + d,
            true,
        ) by {
        if key_stands(piece, start + d, x, value) {
            let i = choose|i: int|
                0 <= i < piece.len() && start + d + (#[trigger] piece[i]).time@ == x
                    && piece[i].value.bits == value;
            assert(kept.contains(kept[i]));
            let k = choose|k: int| 0 <= k < keys.len() && keys[k] == kept[i];
            assert(start + keys[k].time@ == x);
        }
        if key_stands(keys, start, x, value) && x >= start + d {
            let i = choose|i: int|
                0 <= i < keys.len() && start + (#[trigger] keys[i]).time@ == x
                    && keys[i].value.bits == value;
            assert(keys.contains(keys[i]) && p(keys[i]));
            assert(kept.contains(keys[i]));
            let k = choose|k: int| 0 <= k < kept.len() && kept[k] == keys[i];
            assert(start + d + piece[k].time@ == x);
        }
    }
}

// ---------------------------------------------------------------------------
// Clips
// ---------------------------------------------------------------------------

/// Whether two clips are the two pieces of a third that is cut at a time: they meet there and reach
/// as far as it did, show of its file what it showed, have its keyframes where they stood, and its
/// looks, its sound and its masks. No piece is shorter than a millisecond.
pub open spec fn are_pieces(c: ClipView, t: int, left: ClipView, right: ClipView) -> bool {
    &&& left.start == c.start
    &&& left.start + left.duration == t
    &&& right.start == t
    &&& right.start + right.duration == c.start + c.duration
    &&& left.duration >= 1_000_000
    &&& right.duration >= 1_000_000
    &&& left.source_in == c.source_in
    &&& right.source_in - left.source_in == right.start - left.start
    &&& all_keys_stay(c, left, t, false)
    &&& all_keys_stay(c, right, t, true)
    &&& left.dissolve_trim_in == c.dissolve_trim_in && left.dissolve_trim_out == 0
    &&& right.dissolve_trim_out == c.dissolve_trim_out && right.dissolve_trim_in == 0
    &&& forall|piece: ClipView|
        piece == left || piece == right ==> {
            &&& (#[trigger] piece.label) == c.label
            &&& piece.file_path == c.file_path
            &&& piece.media_duration == c.media_duration
            &&& piece.audio_gain_db == c.audio_gain_db
            &&& piece.video_effects == c.video_effects
            &&& piece.local_mask_layers == c.local_mask_layers
        }
}

/// Whether a row is another with one of its clips cut at a time, and in order. The pieces have two
/// ids and two link groups.
pub open spec fn is_cut_row(
    before: Lane,
    after: Lane,
    c: ClipView,
    t: int,
    ids: (int, int),
    groups: (Option<u64>, Option<u64>),
) -> bool {
    exists|left: ClipView, right: ClipView| #[trigger]
        are_pieces(c, t, left, right) && before.contains(c) && left.id == ids.0 && right.id == ids.1
            && left.link_group_id == groups.0 && right.link_group_id == groups.1
            && after.to_multiset() == before.to_multiset().remove(c).insert(left).insert(right)
            && in_order(after, |x: ClipView| x.start)
}

/// Whether the clip at a place of a row can be cut at a time: it is longer than a millisecond on
/// both sides of it.
pub open spec fn cuttable(lane: Lane, k: int, t: int) -> bool {
    &&& 0 <= k < lane.len()
    &&& lane[k].start + 1_000_000 <= t
    &&& t + 1_000_000 <= lane[k].start + lane[k].duration
}

/// Whether the clip at a place of a row is the first that has a time inside.
pub open spec fn is_first_over(lane: Lane, k: int, t: int) -> bool {
    &&& 0 <= k < lane.len()
    &&& lane[k].start < t < lane[k].start + lane[k].duration
    &&& forall|j: int| 0 <= j < k ==> !((#[trigger] lane[j]).start < t < lane[j].start + lane[j].duration)
}

proof fn lemma_pieces(
    c: ClipView,
    t: int,
    a: u64,
    b: u64,
    left_group: Option<u64>,
    right_group: Option<u64>,
)
    requires
        c.start + 1_000_000 <= t,
        t + 1_000_000 <= c.start + c.duration,
    ensures
        are_pieces(c, t, c.left_of(t, a, left_group), c.right_of(t, b, right_group)),
{
    let d = t - c.start;
    let k = c.keyframes;
    lemma_keys_until(k.pos_x, c.start, d);
    lemma_keys_until(k.pos_y, c.start, d);
    lemma_keys_until(k.scale, c.start, d);
    lemma_keys_until(k.rotation, c.start, d);
    lemma_keys_until(k.brightness, c.start, d);
    lemma_keys_until(k.contrast, c.start, d);
    lemma_keys_until(k.saturation, c.start, d);
    lemma_keys_until(k.opacity, c.start, d);
    lemma_keys_until(k.blur, c.start, d);
    lemma_keys_from(k.pos_x, c.start, d);
    lemma_keys_from(k.pos_y, c.start, d);
    lemma_keys_from(k.scale, c.start, d);
    lemma_keys_from(k.rotation, c.start, d);
    lemma_keys_from(k.brightness, c.start, d);
    lemma_keys_from(k.contrast, c.start, d);
    lemma_keys_from(k.saturation, c.start, d);
    lemma_keys_from(k.opacity, c.start, d);
    lemma_keys_from(k.blur, c.start, d);
}

proof fn lemma_multiset_pieces<T>(s: Seq<T>, at: int, left: T, right: T)
    requires
        0 <= at < s.len(),
    ensures
        (s.take(at) + seq![left, right] + s.skip(at + 1)).to_multiset() == s.to_multiset().remove(
            s[at],
        ).insert(left).insert(right),
{
    broadcast use vstd::seq_lib::group_to_multiset_ensures;

    let rest = s.remove(at);
    let parts = s.take(at) + seq![left, right] + s.skip(at + 1);
    assert(rest =~= s.take(at) + s.skip(at + 1));
    assert(rest.insert(at, right).insert(at, left) =~= parts);
    assert(rest.insert(at, right).to_multiset() =~= rest.to_multiset().insert(right));
    assert(rest.insert(at, right).insert(at, left).to_multiset() =~= rest.insert(
        at,
        right,
    ).to_multiset().insert(left));
    assert(parts.to_multiset() =~= s.to_multiset().remove(s[at]).insert(left).insert(right));
}

proof fn lemma_cut_clip(
    clips: Lane,
    next_id: int,
    id: u64,
    t: int,
    left_group: Option<u64>,
    right_group: Option<u64>,
    k: int,
)
    requires
        0 <= next_id < u64::MAX,
        k == cut_place(clips, id, t),
        k < clips.len(),
    ensures
        ({
            let cut = cut_clip(clips, next_id, id, t, left_group, right_group);
            &&& 0 <= k
            &&& clips[k].start < t < clips[k].start + clips[k].duration
            &&& cuttable(clips, k, t) ==> cut.right_id == Some((next_id + 1) as u64) && cut.next_id
                == next_id + 2 && is_cut_row(
                clips,
                cut.clips,
                clips[k],
                t,
                (next_id, next_id + 1),
                (left_group, right_group),
            )
            &&& !cuttable(clips, k, t) ==> cut.right_id is None && cut.clips == clips && cut.next_id
                == next_id
        }),
{
    let p = |c: ClipView| c.id == id && straddles(c, t);
    lemma_first(clips, p);
    assert(p(clips[k]));
    if cuttable(clips, k, t) {
        let left = clips[k].left_of(t, next_id as u64, left_group);
        let right = clips[k].right_of(t, (next_id + 1) as u64, right_group);
        lemma_pieces(
            clips[k],
            t,
            next_id as u64,
            (next_id + 1) as u64,
            left_group,
            right_group,
        );
        lemma_multiset_pieces(clips, k, left, right);
        ordered_is_sorted_permutation(
            clips.take(k) + seq![left, right] + clips.skip(k + 1),
            |c: ClipView| c.start,
        );
    }
}

/// A cut in a row cuts the first clip that has the time inside, if both pieces are long enough, and
/// changes nothing else. Whether it did is told by the id of the piece behind the cut.
pub proof fn lane_cut_leaves_pieces(t: TimelineView, lane: int, next_id: int, time: int)
    requires
        0 <= lane < t.lane_count(),
        0 <= next_id < u64::MAX,
    ensures
        ({
            let cut = t.lane_razored(lane, next_id, time);
            let row = t.lane(lane);
            &&& cut.right_id is Some <==> exists|k: int|
                is_first_over(row, k, time) && #[trigger] cuttable(row, k, time)
            &&& cut.right_id is None ==> cut.timeline == t
            &&& cut.timeline == t.with_lane(lane, cut.timeline.lane(lane))
            &&& forall|k: int|
                is_first_over(row, k, time) && #[trigger] cuttable(row, k, time) ==> cut.right_id
                    == Some((next_id + 1) as u64) && is_cut_row(
                    row,
                    cut.timeline.lane(lane),
                    row[k],
                    time,
                    (next_id, next_id + 1),
                    (group_of(row, row[k].id), group_of(row, row[k].id)),
                )
        }),
{
    reveal(TimelineView::lane_razored);
    let row = t.lane(lane);
    let p = |c: ClipView| straddles(c, time);
    let at = first_straddler(row, time);
    lemma_first(row, p);
    let cut = cut_first(row, next_id, time);
    let lanes = t.lanes().update(lane, cut.clips);
    lemma_lanes_put(t, lanes);
    assert(t.with_lane(lane, cut.clips).lane(lane) == t.with_lane(lane, cut.clips).lanes()[lane]);
    if at < row.len() {
        let id = row[at].id;
        let q = |c: ClipView| c.id == id && straddles(c, time);
        lemma_first(row, q);
        let place = cut_place(row, id, time);
        assert(p(row[at]));
        assert(q(row[at]));
        assert(place <= at);
        assert(q(row[place]));
        assert(p(row[place]));
        assert(place == at);
        let group = group_of(row, id);
        lemma_cut_clip(row, next_id, id, time, group, group, at);
        assert(is_first_over(row, at, time)) by {
            assert forall|j: int| 0 <= j < at implies !((#[trigger] row[j]).start < time
                < row[j].start + row[j].duration) by {
                assert(!p(row[j]));
            }
        }
    }
    assert forall|k: int| is_first_over(row, k, time) implies k == at by {
        assert(p(row[k]));
        if at < row.len() {
            assert(p(row[at]));
        }
    }
    if cut.right_id is None {
        assert(lanes =~= t.lanes());
        lemma_lanes_put_back(t);
    }
}

/// Whether no two clips of a row have the same id.
pub open spec fn ids_differ(lane: Lane) -> bool {
    forall|i: int, j: int| 0 <= i < j < lane.len() ==> (#[trigger] lane[i]).id != (#[trigger] lane[j]).id
}

/// Whether the clip at a place of a row is the first of a link group that has a time inside.
pub open spec fn is_first_linked(lane: Lane, k: int, group: u64, t: int) -> bool {
    &&& 0 <= k < lane.len()
    &&& lane[k].link_group_id == Some(group)
    &&& lane[k].start < t < lane[k].start + lane[k].duration
    &&& forall|j: int|
        0 <= j < k ==> !((#[trigger] lane[j]).link_group_id == Some(group) && lane[j].start < t
            < lane[j].start + lane[j].duration)
}

/// Whether a row is another in which the first clip of a link group that has a time inside is cut
/// there, if its pieces are long enough; else it is as it was. The piece behind the cut is in
/// another link group.
pub open spec fn is_cut_with_group(
    before: Lane,
    after: Lane,
    group: u64,
    right_group: Option<u64>,
    t: int,
) -> bool {
    &&& (forall|k: int| is_first_linked(before, k, group, t) ==> !#[trigger] cuttable(before, k, t))
        ==> after == before
    &&& forall|k: int|
        is_first_linked(before, k, group, t) && #[trigger] cuttable(before, k, t) ==> exists|id: int|
            #[trigger] is_cut_row(
                before,
                after,
                before[k],
                t,
                (id, id + 1),
                (Some(group), right_group),
            )
}

proof fn lemma_linked_cut(
    lane: Lane,
    next_id: int,
    t: int,
    group: u64,
    right_group: Option<u64>,
)
    requires
        ids_differ(lane),
        0 <= next_id < u64::MAX,
    ensures
        ({
            let cut = linked_cut(lane, next_id, t, group, right_group);
            &&& is_cut_with_group(lane, cut.clips, group, right_group, t)
            &&& next_id <= cut.next_id <= next_id + 2
        }),
{
    let p = |c: ClipView| c.link_group_id == Some(group) && straddles(c, t);
    lemma_first(lane, p);
    let at = linked_straddler(lane, group, t);
    assert forall|k: int| is_first_linked(lane, k, group, t) implies k == at by {
        assert(p(lane[k]));
        if at < lane.len() {
            assert(p(lane[at]));
        }
    }
    if at < lane.len() {
        let id = lane[at].id;
        let q = |c: ClipView| c.id == id && straddles(c, t);
        lemma_first(lane, q);
        let place = cut_place(lane, id, t);
        assert(p(lane[at]));
        assert(q(lane[at]));
        assert(q(lane[place]));
        assert(place == at);
        lemma_cut_clip(lane, next_id, id, t, Some(group), right_group, at);
        assert(is_first_linked(lane, at, group, t)) by {
            assert forall|j: int| 0 <= j < at implies !((#[trigger] lane[j]).link_group_id == Some(
                group,
            ) && lane[j].start < t < lane[j].start + lane[j].duration) by {
                assert(!p(lane[j]));
            }
        }
    }
}

proof fn lemma_linked_rows(
    lanes: Seq<Lane>,
    n: int,
    next_id: int,
    t: int,
    group: u64,
    right_group: Option<u64>,
)
    requires
        1 <= n <= lanes.len(),
        0 <= next_id,
        next_id + 2 * n <= u64::MAX,
        forall|i: int| 1 <= i < lanes.len() ==> ids_differ(#[trigger] lanes[i]),
    ensures
        ({
            let cuts = linked_cuts(lanes, n, next_id, t, group, right_group);
            &&& cuts.lanes.len() == lanes.len()
            &&& cuts.lanes[0] == lanes[0]
            &&& next_id <= cuts.next_id <= next_id + 2 * (n - 1)
            &&& forall|i: int|
                1 <= i < n ==> is_cut_with_group(
                    lanes[i],
                    #[trigger] cuts.lanes[i],
                    group,
                    right_group,
                    t,
                )
            &&& forall|i: int| n <= i < lanes.len() ==> #[trigger] cuts.lanes[i] == lanes[i]
        }),
    decreases n,
{
    if n > 1 {
        lemma_linked_rows(lanes, n - 1, next_id, t, group, right_group);
        let before = linked_cuts(lanes, n - 1, next_id, t, group, right_group);
        assert(ids_differ(lanes[n - 1]));
        lemma_linked_cut(lanes[n - 1], before.next_id, t, group, right_group);
    }
}

/// A cut of the main track cuts the first clip that has the time inside, if both pieces are long
/// enough, and in every other row the first clip that is linked with it and has the time inside.
/// The pieces before the cut stay linked, and so are those behind it, in a link group of their own.
/// Nothing else changes.
pub proof fn main_cut_leaves_pieces(t: TimelineView, next_id: int, time: int)
    requires
        0 <= next_id,
        next_id + 2 * t.lane_count() + 2 <= u64::MAX,
        forall|i: int| 0 <= i < t.lane_count() ==> ids_differ(#[trigger] t.lanes()[i]),
    ensures
        ({
            let cut = t.v1_razored(next_id, time);
            let row = t.v1_clips;
            &&& cut.right_id is Some <==> exists|k: int|
                is_first_over(row, k, time) && #[trigger] cuttable(row, k, time)
            &&& cut.right_id is None ==> cut.timeline == t
            &&& cut.timeline.lanes().len() == t.lanes().len()
            &&& cut.timeline == t.with_lanes(cut.timeline.lanes())
            &&& forall|k: int|
                is_first_over(row, k, time) && #[trigger] cuttable(row, k, time) ==> {
                    let group = row[k].link_group_id;
                    let right_group = if group is Some {
                        Some(t.free_group())
                    } else {
                        None
                    };
                    &&& cut.right_id == Some((next_id + 1) as u64)
                    &&& is_cut_row(
                        row,
                        cut.timeline.v1_clips,
                        row[k],
                        time,
                        (next_id, next_id + 1),
                        (group, right_group),
                    )
                    &&& forall|i: int|
                        1 <= i < t.lanes().len() ==> if group is Some {
                            is_cut_with_group(
                                t.lanes()[i],
                                #[trigger] cut.timeline.lanes()[i],
                                group->0,
                                right_group,
                                time,
                            )
                        } else {
                            cut.timeline.lanes()[i] == t.lanes()[i]
                        }
                }
        }),
{
    reveal(TimelineView::v1_razored);
    let row = t.v1_clips;
    let p = |c: ClipView| straddles(c, time);
    let at = first_straddler(row, time);
    lemma_first(row, p);
    lemma_lanes_put_back(t);
    assert(t.lanes()[0] == row);
    assert forall|k: int| is_first_over(row, k, time) implies k == at by {
        assert(p(row[k]));
        if at < row.len() {
            assert(p(row[at]));
        }
    }
    if at < row.len() {
        let id = row[at].id;
        let q = |c: ClipView| c.id == id && straddles(c, time);
        lemma_first(row, q);
        assert(p(row[at]));
        assert(q(row[at]));
        let place = cut_place(row, id, time);
        assert(q(row[place]));
        assert(p(row[place]));
        assert(place == at);
        let left_group = row[at].link_group_id;
        let right_group = if left_group is Some {
            Some(t.free_group())
        } else {
            None
        };
        lemma_cut_clip(row, next_id, id, time, left_group, right_group, at);
        assert(is_first_over(row, at, time)) by {
            assert forall|j: int| 0 <= j < at implies !((#[trigger] row[j]).start < time
                < row[j].start + row[j].duration) by {
                assert(!p(row[j]));
            }
        }
        let cut = cut_clip(row, next_id, id, time, left_group, right_group);
        if cuttable(row, at, time) {
            let lanes = t.lanes().update(0, cut.clips);
            lemma_lanes_put(t, lanes);
            if left_group is Some {
                assert forall|i: int| 1 <= i < lanes.len() implies ids_differ(
                    #[trigger] lanes[i],
                ) by {
                    assert(ids_differ(t.lanes()[i]));
                }
                lemma_linked_rows(
                    lanes,
                    lanes.len() as int,
                    cut.next_id,
                    time,
                    left_group->0,
                    right_group,
                );
                let cuts = linked_cuts(
                    lanes,
                    lanes.len() as int,
                    cut.next_id,
                    time,
                    left_group->0,
                    right_group,
                );
                lemma_lanes_put(t, cuts.lanes);
                assert(t.with_lanes(cuts.lanes).v1_clips == cuts.lanes[0]);
            } else {
                assert(t.with_lanes(lanes).v1_clips == lanes[0]);
            }
        }
    }
}

/// After a cut the piece behind it is selected and nothing else; where nothing was cut the selection
/// stays. Nothing but the timeline and the free id changes beside.
pub proof fn cut_selects_the_piece_behind(s: StateView, cut: crate::cuts::TimelineCut)
    ensures
        ({
            let after = s.after_cut(cut);
            &&& after.timeline == cut.timeline
            &&& after == (StateView {
                timeline: after.timeline,
                next_clip_id: after.next_clip_id,
                selection: after.selection,
                ..s
            })
            &&& cut.right_id is None ==> after.selection == s.selection
            &&& cut.right_id matches Some(id) ==> after.selection.selected_clip_id == Some(id)
                && after.selection.selected_clip_ids == seq![id]
                && after.selection.selected_subtitle_id is None
                && after.selection.selected_subtitle_ids.len() == 0
        }),
{
}

// ---------------------------------------------------------------------------
// Subtitles
// ---------------------------------------------------------------------------

/// Whether two subtitles are the two pieces of a third that is cut at a time: they meet there and
/// reach as far as it did, and both show its text where and as it was shown.
pub open spec fn are_subtitle_pieces(
    c: SubtitleClipView,
    t: int,
    left: SubtitleClipView,
    right: SubtitleClipView,
) -> bool {
    &&& left.start == c.start
    &&& left.start + left.duration == t
    &&& right.start == t
    &&& right.start + right.duration == c.start + c.duration
    &&& left == (SubtitleClipView { id: left.id, start: left.start, duration: left.duration, ..c })
    &&& right == (SubtitleClipView {
        id: right.id,
        start: right.start,
        duration: right.duration,
        ..c
    })
}

/// A cut of subtitles cuts the first one that has the time inside, if both pieces are a millisecond
/// long, and leaves the others as they were and in order. The piece behind it is selected.
pub proof fn subtitle_cut_leaves_pieces(s: StateView, track: int, next_id: int, time: int)
    requires
        0 <= track < s.timeline.subtitle_tracks.len(),
        0 <= next_id < u64::MAX,
    ensures
        ({
            let cut = s.timeline.subtitle_razored(track, next_id, time);
            let row = s.timeline.subtitle_tracks[track].clips;
            let after = s.after_subtitle_cut(cut);
            let out = after.timeline.subtitle_tracks[track].clips;
            &&& cut.right_id is None ==> out == row && after.selection == s.selection
            &&& cut.right_id matches Some(id) ==> after.selection.selected_subtitle_id == Some(id)
                && after.selection.selected_subtitle_ids == seq![id]
                && after.selection.selected_clip_id is None
                && after.selection.selected_clip_ids.len() == 0 && exists|
                k: int,
                left: SubtitleClipView,
                right: SubtitleClipView,
            |
                0 <= k < row.len() && #[trigger] are_subtitle_pieces(row[k], time, left, right)
                    && left.duration >= 1_000_000 && right.duration >= 1_000_000 && right.id == id
                    && left.id == next_id && id == next_id + 1 && out.to_multiset()
                    == row.to_multiset().remove(row[k]).insert(left).insert(right) && in_order(
                    out,
                    |x: SubtitleClipView| x.start,
                )
            &&& forall|k: int|
                0 <= k < row.len() && (#[trigger] row[k]).start + 1_000_000 <= time && time
                    + 1_000_000 <= row[k].start + row[k].duration && (forall|j: int|
                    0 <= j < k ==> !((#[trigger] row[j]).start < time < row[j].start
                        + row[j].duration)) ==> cut.right_id is Some
        }),
{
    reveal(TimelineView::subtitle_razored);
    let row = s.timeline.subtitle_tracks[track].clips;
    let p = |c: SubtitleClipView| subtitle_straddles(c, time);
    let at = first(row, p);
    lemma_first(row, p);
    let cut = cut_first_subtitle(row, next_id, time);
    if cut.right_id is Some {
        let c = row[at];
        let left = SubtitleClipView { id: next_id as u64, duration: time - c.start, ..c };
        let right = SubtitleClipView {
            id: (next_id + 1) as u64,
            start: time,
            duration: c.end() - time,
            ..c
        };
        assert(p(row[at]));
        lemma_multiset_pieces(row, at, left, right);
        ordered_is_sorted_permutation(
            row.take(at) + seq![left, right] + row.skip(at + 1),
            |c: SubtitleClipView| c.start,
        );
        assert(are_subtitle_pieces(row[at], time, left, right));
    }
    assert forall|k: int|
        0 <= k < row.len() && (#[trigger] row[k]).start + 1_000_000 <= time && time + 1_000_000
            <= row[k].start + row[k].duration && (forall|j: int|
            0 <= j < k ==> !((#[trigger] row[j]).start < time < row[j].start
                + row[j].duration)) implies cut.right_id is Some by {
        assert(p(row[k]));
        assert(p(row[at]));
        assert(at == k);
    }
}

} // verus!
