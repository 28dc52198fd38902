//! Where clips are after they were dragged.
use crate::anchors::{anchor, following};
use crate::clip::{by_start, ClipView};
use crate::lanes::{lemma_all_clips, lemma_lanes_put, Lane};
use crate::links::{
    earliest, except_id, goes_along, group_delta, lane_moved, lane_shifted, lemma_earliest,
    lemma_lane_moved_by_nothing,
};
use crate::lists::{first, lemma_first_is, some};
use crate::moves::{
    drop_place, lemma_total_length_grows, packed, packed_middle, place_of, restarted, total_length,
};
use crate::order::{in_order, ordered_is_sorted_permutation};
use crate::state::StateView;
use crate::subtitle::SubtitleClipView;
use crate::time::MAX_NANOS;
use crate::tracks::TimelineView;
use vstd::prelude::*;

verus! {

// ---------------------------------------------------------------------------
// Magnetic moves
// ---------------------------------------------------------------------------

/// Whether two clips are the same but for their start.
pub open spec fn same_but_start(a: ClipView, b: ClipView) -> bool {
    a == (ClipView { start: a.start, ..b })
}

/// Whether the clip at a place of a row is the only one of its id up to there.
pub open spec fn is_place_of(lane: Lane, at: int, clip_id: u64) -> bool {
    &&& 0 <= at < lane.len()
    &&& lane[at].id == clip_id
    &&& forall|j: int| 0 <= j < at ==> (#[trigger] lane[j]).id != clip_id
}

/// Whether a row is another from which the clip at one place was taken and put at another, and all
/// clips then stand one behind the other from the start on. Those in front of the new place have
/// their middles at the time of the drop or before it, and the one behind it, which stood where the
/// dropped clip now stands, had its middle behind that time.
pub open spec fn is_dropped(before: Lane, at: int, after: Lane, place: int, hint: int) -> bool {
    &&& 0 <= place < after.len()
    &&& after.len() == before.len()
    &&& same_but_start(after[place], before[at])
    &&& forall|j: int| 0 <= j < place ==> same_but_start(#[trigger] after[j], before.remove(at)[j])
    &&& forall|j: int|
        place < j < after.len() ==> same_but_start(#[trigger] after[j], before.remove(at)[j - 1])
    &&& after[0].start == 0
    &&& forall|j: int|
        0 < j < after.len() ==> (#[trigger] after[j]).start == after[j - 1].start + after[j
            - 1].duration
    &&& forall|j: int| 0 <= j < place ==> (#[trigger] after[j]).start + after[j].duration / 2 <= hint
    &&& place + 1 < after.len() ==> hint < after[place].start + after[place + 1].duration / 2
}

proof fn lemma_place_is(lane: Lane, at: int, clip_id: u64)
    requires
        is_place_of(lane, at, clip_id),
    ensures
        place_of(lane, clip_id) == at,
{
    let p = |c: ClipView| c.id == clip_id;
    assert forall|j: int| 0 <= j < at implies !p(#[trigger] lane[j]) by {}
    lemma_first_is(lane, p, at);
}

proof fn lemma_drop_place(clips: Lane, hint: int, i: int)
    requires
        0 <= i <= clips.len(),
    ensures
        ({
            let p = drop_place(clips, hint, i);
            &&& i <= p <= clips.len()
            &&& forall|j: int| i <= j < p ==> hint >= #[trigger] packed_middle(clips, j)
            &&& p < clips.len() ==> hint < packed_middle(clips, p)
        }),
    decreases clips.len() - i,
{
    if i < clips.len() && hint >= packed_middle(clips, i) {
        lemma_drop_place(clips, hint, i + 1);
    }
}

proof fn lemma_total_without(clips: Lane, at: int)
    requires
        0 <= at < clips.len(),
    ensures
        total_length(clips.remove(at)) + clips[at].duration == total_length(clips),
    decreases clips.len(),
{
    if at == clips.len() - 1 {
        assert(clips.remove(at) =~= clips.drop_last());
    } else {
        lemma_total_without(clips.drop_last(), at);
        assert(clips.remove(at).drop_last() =~= clips.drop_last().remove(at));
        assert(clips.remove(at).last() == clips.last());
    }
}

proof fn lemma_next_start(clips: Lane, i: int)
    requires
        0 <= i < clips.len(),
    ensures
        total_length(clips.take(i + 1)) == total_length(clips.take(i)) + clips[i].duration,
{
    assert(clips.take(i + 1).drop_last() =~= clips.take(i));
}

/// A clip that is dragged along the main track goes between the clips whose middles the time of the
/// drop parts, and all others keep their order and leave no gap.
pub proof fn dropped_clip_is_between_middles(s: StateView, clip_id: u64, hint: int, at: int)
    requires
        is_place_of(s.repaired().timeline.v1_clips, at, clip_id),
        total_length(s.repaired().timeline.v1_clips) <= MAX_NANOS,
        forall|j: int|
            0 <= j < s.repaired().timeline.v1_clips.len() ==> (
            #[trigger] s.repaired().timeline.v1_clips[j]).duration >= 0,
    ensures
        exists|place: int|
            #[trigger] is_dropped(
                s.repaired().timeline.v1_clips,
                at,
                s.v1_moved_magnetic(clip_id, hint).timeline.v1_clips,
                place,
                hint,
            ),
{
    reveal(packed);
    reveal(TimelineView::following_v1);
    let v1 = s.repaired().timeline.v1_clips;
    lemma_place_is(v1, at, clip_id);
    let others = v1.remove(at);
    let p = drop_place(others, hint, 0);
    lemma_drop_place(others, hint, 0);
    let lined = others.insert(p, v1[at]);
    let after = packed(lined);
    assert(lined.remove(p) =~= others);
    lemma_total_without(v1, at);
    lemma_total_without(lined, p);
    assert forall|j: int| 0 <= j < lined.len() implies (#[trigger] lined[j]).duration >= 0 by {
        if j < p {
            assert(lined[j] == others[j]);
        } else if j > p {
            assert(lined[j] == others[j - 1]);
        }
        let k = if j == p {
            at
        } else if j < p {
            if j < at {
                j
            } else {
                j + 1
            }
        } else if j - 1 < at {
            j - 1
        } else {
            j
        };
        assert(lined[j] == v1[k]);
    }
    assert forall|j: int| 0 <= j < others.len() implies (#[trigger] others[j]).duration >= 0 by {
        let k = if j < at {
            j
        } else {
            j + 1
        };
        assert(others[j] == v1[k]);
    }
    assert forall|j: int| 0 <= j <= lined.len() implies 0 <= #[trigger] total_length(lined.take(j))
        <= MAX_NANOS by {
        lemma_total_length_grows(lined, j);
    }
    assert forall|j: int| 0 <= j <= p implies #[trigger] lined.take(j) == others.take(j) by {
        assert(lined.take(j) =~= others.take(j));
    }
    assert(after[0].start == 0) by {
        assert(lined.take(0).len() == 0);
        assert(total_length(lined.take(0)) == 0);
    }
    assert forall|j: int| 0 < j < after.len() implies (#[trigger] after[j]).start == after[j
        - 1].start + after[j - 1].duration by {
        lemma_next_start(lined, j - 1);
        assert(0 <= total_length(lined.take(j)) <= MAX_NANOS);
        assert(0 <= total_length(lined.take(j - 1)) <= MAX_NANOS);
    }
    assert forall|j: int| 0 <= j < p implies (#[trigger] after[j]).start + after[j].duration / 2
        <= hint by {
        assert(lined.take(j) == others.take(j));
        assert(lined[j] == others[j]);
        assert(hint >= packed_middle(others, j));
        lemma_next_start(lined, j);
        assert(0 <= total_length(lined.take(j + 1)) <= MAX_NANOS);
        assert(0 <= total_length(lined.take(j)) <= MAX_NANOS);
        assert(lined[j].duration >= 0);
    }
    if p + 1 < after.len() {
        assert(lined.take(p) == others.take(p));
        assert(lined[p + 1] == others[p]);
    }
    assert(is_dropped(v1, at, after, p, hint));
    let t = TimelineView { v1_clips: after, ..s.repaired().timeline };
    assert(t.following_v1(v1).v1_clips == t.lane(0));
}

// ---------------------------------------------------------------------------
// Linked clips
// ---------------------------------------------------------------------------

/// A clip that is moved by a way, no further than to the start of the timeline or to its end.
pub open spec fn shifted(c: ClipView, way: int) -> ClipView {
    ClipView {
        start: if c.start + way < 0 {
            0
        } else if c.start + way > MAX_NANOS {
            MAX_NANOS as int
        } else {
            c.start + way
        },
        ..c
    }
}

/// Whether the clip at a place of a row is the first of a link group.
pub open spec fn is_first_of_group(lane: Lane, k: int, group: u64) -> bool {
    &&& 0 <= k < lane.len()
    &&& lane[k].link_group_id == Some(group)
    &&& forall|j: int| 0 <= j < k ==> (#[trigger] lane[j]).link_group_id != Some(group)
}

/// Whether no clip of the row is in the link group.
pub open spec fn lacks_group(lane: Lane, group: u64) -> bool {
    forall|j: int| 0 <= j < lane.len() ==> (#[trigger] lane[j]).link_group_id != Some(group)
}

/// Whether times of clips can be written down.
pub open spec fn times_fit(lane: Lane) -> bool {
    forall|j: int| 0 <= j < lane.len() ==> 0 <= (#[trigger] lane[j]).start <= MAX_NANOS
}

proof fn lemma_contains_ordered<T>(s: Seq<T>, key: spec_fn(T) -> int, x: T)
    ensures
        crate::order::ordered(s, key).contains(x) == s.contains(x),
        crate::order::ordered(s, key).len() == s.len(),
{
    broadcast use vstd::seq_lib::group_to_multiset_ensures;

    ordered_is_sorted_permutation(s, key);
    let o = crate::order::ordered(s, key);
    assert(o.contains(x) <==> o.to_multiset().count(x) > 0);
    assert(s.contains(x) <==> s.to_multiset().count(x) > 0);
}

/// Each clip of a row is still there, moved by its way.
proof fn lemma_lane_shifted(lane: Lane, delta_of: spec_fn(ClipView) -> int, k: int)
    requires
        0 <= k < lane.len(),
        0 <= lane[k].start <= MAX_NANOS,
    ensures
        lane_shifted(lane, delta_of).contains(shifted(lane[k], delta_of(lane[k]))),
        by_start(lane_moved(lane, delta_of)).contains(shifted(lane[k], delta_of(lane[k]))),
        lane_shifted(lane, delta_of).len() == lane.len(),
        by_start(lane_moved(lane, delta_of)).len() == lane.len(),
        in_order(by_start(lane_moved(lane, delta_of)), |c: ClipView| c.start),
{
    let all = lane_moved(lane, delta_of);
    let x = shifted(lane[k], delta_of(lane[k]));
    assert(all[k] == x);
    assert(all.contains(x));
    lemma_contains_ordered(all, |c: ClipView| c.start, x);
    ordered_is_sorted_permutation(all, |c: ClipView| c.start);
    if !some(lane, |c: ClipView| delta_of(c) != 0) {
        lemma_lane_moved_by_nothing(lane, delta_of);
    }
}

proof fn lemma_anchor(lane: Lane, group: u64, k: int)
    requires
        is_first_of_group(lane, k, group),
    ensures
        anchor(lane, group) == Some(lane[k].start),
{
    let p = |c: ClipView| c.link_group_id == Some(group);
    assert forall|j: int| 0 <= j < k implies !p(#[trigger] lane[j]) by {}
    lemma_first_is(lane, p, k);
}

proof fn lemma_no_anchor(lane: Lane, group: u64)
    requires
        lacks_group(lane, group),
    ensures
        anchor(lane, group) is None,
{
    let p = |c: ClipView| c.link_group_id == Some(group);
    assert forall|j: int| 0 <= j < lane.len() implies !p(#[trigger] lane[j]) by {}
    lemma_first_is(lane, p, lane.len() as int);
}

/// When a clip is dragged along the main track, every clip of another row goes as far as the first
/// clip of its link group on the main track went. One that is not linked with the main track stays.
pub proof fn linked_clips_follow_a_drop(
    s: StateView,
    clip_id: u64,
    hint: int,
    i: int,
    n: int,
    k: int,
    m: int,
)
    requires
        1 <= i < s.repaired().timeline.lane_count(),
        0 <= n < s.repaired().timeline.lane(i).len(),
        0 <= s.repaired().timeline.lane(i)[n].start <= MAX_NANOS,
    ensures
        ({
            let t = s.repaired().timeline;
            let after = s.v1_moved_magnetic(clip_id, hint).timeline;
            let c = t.lane(i)[n];
            &&& after.lane(i).len() == t.lane(i).len()
            &&& match c.link_group_id {
                Some(group) => {
                    &&& is_first_of_group(t.v1_clips, k, group) && is_first_of_group(
                        after.v1_clips,
                        m,
                        group,
                    ) ==> after.lane(i).contains(
                        shifted(c, after.v1_clips[m].start - t.v1_clips[k].start),
                    )
                    &&& lacks_group(t.v1_clips, group) ==> after.lane(i).contains(c)
                },
                None => after.lane(i).contains(c),
            }
        }),
{
    reveal(TimelineView::following_v1);
    let t = s.repaired().timeline;
    let v1 = t.v1_clips;
    let at = place_of(v1, clip_id);
    let after = s.v1_moved_magnetic(clip_id, hint).timeline;
    let c = t.lane(i)[n];
    if c.link_group_id is Some {
        let group = c.link_group_id->0;
        if is_first_of_group(v1, k, group) {
            lemma_anchor(v1, group, k);
        }
        if is_first_of_group(after.v1_clips, m, group) {
            lemma_anchor(after.v1_clips, group, m);
        }
        if lacks_group(v1, group) {
            lemma_no_anchor(v1, group);
        }
    }
    if at < v1.len() {
        let others = v1.remove(at);
        let arranged = packed(others.insert(drop_place(others, hint, 0), v1[at]));
        let u = TimelineView { v1_clips: arranged, ..t };
        assert(u.lane(i) == t.lane(i));
        let delta_of = following(v1, arranged);
        let rows = Seq::new(
            u.lane_count(),
            |j: int|
                if j == 0 {
                    u.lane(0)
                } else {
                    lane_shifted(u.lane(j), delta_of)
                },
        );
        lemma_lanes_put(u, rows);
        assert(after.lane(i) == after.lanes()[i]);
        assert(after.lane(0) == after.lanes()[0]);
        assert(after.v1_clips == arranged);
        lemma_lane_shifted(t.lane(i), delta_of, n);
        assert(shifted(c, 0) == c);
    } else {
        assert(t.lane(i).contains(c));
        assert(shifted(c, 0) == c);
    }
}

/// Whether every clip of a link group went by a way, none past the start of the timeline, and no
/// other clip moved.
pub open spec fn group_goes_by(t: TimelineView, after: TimelineView, group: u64, way: int) -> bool {
    &&& after.lane_count() == t.lane_count()
    &&& forall|i: int, n: int|
        0 <= i < t.lane_count() && 0 <= n < t.lane(i).len() ==> {
            let c = #[trigger] t.lane(i)[n];
            &&& after.lane(i).len() == t.lane(i).len()
            &&& if c.link_group_id == Some(group) {
                c.start + way >= 0 && after.lane(i).contains(shifted(c, way))
            } else {
                after.lane(i).contains(c)
            }
        }
}

/// Whether a link group can go by a way when another is wanted: the wanted one, or one that is not so
/// far back and takes a clip of the group to the start of the timeline.
pub open spec fn is_allowed_way(t: TimelineView, group: u64, wanted: int, way: int) -> bool {
    way == wanted || (wanted < way <= 0 && exists|i: int, n: int|
        0 <= i < t.lane_count() && 0 <= n < t.lane(i).len() && (
        #[trigger] t.lane(i)[n]).link_group_id == Some(group) && t.lane(i)[n].start + way == 0)
}

/// A link group that is moved goes as one: every clip of it, in whatever row, by the same way, which
/// is the wanted one, or as far back as the start of the timeline lets its earliest clip go. No
/// other clip moves.
pub proof fn linked_clips_move_as_one(t: TimelineView, group: u64, delta: int)
    requires
        forall|j: int| 0 <= j < t.lane_count() ==> times_fit(#[trigger] t.lanes()[j]),
        forall|j: int, k: int|
            0 <= j < t.lane_count() && 0 <= k < t.lane(j).len() ==> (#[trigger] t.lane(j)[k]).id
                != u64::MAX,
    ensures
        exists|way: int| #[trigger]
            group_goes_by(t, t.group_moved(group, delta, None), group, way) && is_allowed_way(
                t,
                group,
                delta,
                way,
            ),
{
    reveal(TimelineView::group_moved);
    let excluded = except_id(None);
    let after = t.group_moved(group, delta, None);
    let all = t.all_clips();
    let first_start = earliest(all, group, excluded);
    let way = if first_start is Some {
        t.allowed_delta(group, excluded, delta)
    } else {
        delta
    };
    lemma_earliest(all, group, excluded);
    lemma_earliest_is(all, group, excluded);
    let delta_of = group_delta(group, excluded, t.allowed_delta(group, excluded, delta));
    let rows = Seq::new(
        t.lane_count(),
        |j: int|
            if j == 0 {
                by_start(lane_moved(t.lane(0), delta_of))
            } else {
                lane_shifted(t.lane(j), delta_of)
            },
    );
    lemma_lanes_put(t, rows);
    assert(after.lane_count() == t.lane_count());
    if first_start is Some {
        let e = choose|e: int|
            0 <= e < all.len() && goes_along(#[trigger] all[e], group, excluded) && all[e].start
                == first_start->0;
        assert(all.contains(all[e]));
        lemma_all_clips(t.lanes(), all[e]);
        let j = choose|j: int|
            0 <= j < t.lanes().len() && (#[trigger] t.lanes()[j]).contains(all[e]);
        let k = choose|k: int| 0 <= k < t.lanes()[j].len() && t.lanes()[j][k] == all[e];
        assert(t.lane(j)[k] == all[e]);
        assert(times_fit(t.lanes()[j]));
        assert(0 <= t.lanes()[j][k].start);
        assert(is_allowed_way(t, group, delta, way));
    }
    assert forall|i: int, n: int| 0 <= i < t.lane_count() && 0 <= n < t.lane(i).len() implies {
        let c = #[trigger] t.lane(i)[n];
        &&& after.lane(i).len() == t.lane(i).len()
        &&& if c.link_group_id == Some(group) {
            c.start + way >= 0 && after.lane(i).contains(shifted(c, way))
        } else {
            after.lane(i).contains(c)
        }
    } by {
        let c = t.lane(i)[n];
        assert(t.lanes()[i] == t.lane(i));
        assert(times_fit(t.lanes()[i]));
        assert(0 <= t.lanes()[i][n].start <= MAX_NANOS);
        assert(t.lanes()[i].contains(c));
        lemma_all_clips(t.lanes(), c);
        assert(all.contains(c));
        let at = choose|j: int| 0 <= j < all.len() && all[j] == c;
        assert(t.lane(i)[n].id != u64::MAX);
        if c.link_group_id == Some(group) {
            assert(goes_along(all[at], group, excluded));
        }
        assert(shifted(c, 0) == c);
        assert(t.lane(i).contains(c));
        if !(delta == 0 || t.allowed_delta(group, excluded, delta) == 0) {
            assert(after.lane(i) == after.lanes()[i]);
            lemma_lane_shifted(t.lane(i), delta_of, n);
        }
    }
    assert(group_goes_by(t, after, group, way));
}

proof fn lemma_earliest_is(clips: Lane, group: u64, excluded: u64)
    ensures
        earliest(clips, group, excluded) matches Some(t) ==> exists|e: int|
            0 <= e < clips.len() && goes_along(#[trigger] clips[e], group, excluded)
                && clips[e].start == t,
    decreases clips.len(),
{
    if clips.len() > 0 {
        let front = clips.drop_last();
        lemma_earliest_is(front, group, excluded);
        if let Some(t) = earliest(front, group, excluded) {
            let e = choose|e: int|
                0 <= e < front.len() && goes_along(#[trigger] front[e], group, excluded)
                    && front[e].start == t;
            assert(clips[e] == front[e]);
        }
        assert(clips[clips.len() - 1] == clips.last());
    }
}

// ---------------------------------------------------------------------------
// Free moves
// ---------------------------------------------------------------------------

/// Whether a row is another in which the clip at one place starts at another time, and nothing else
/// is changed but the order, which is that of the starts.
pub open spec fn is_restarted(before: Lane, after: Lane, at: int, start: int) -> bool {
    &&& after.to_multiset() == before.to_multiset().remove(before[at]).insert(
        ClipView { start, ..before[at] },
    )
    &&& in_order(after, |c: ClipView| c.start)
}

proof fn lemma_restarted(lane: Lane, at: int, clip_id: u64, start: int)
    requires
        is_place_of(lane, at, clip_id),
    ensures
        is_restarted(lane, restarted(lane, clip_id, start), at, start),
{
    broadcast use vstd::seq_lib::group_to_multiset_ensures;

    reveal(restarted);
    lemma_place_is(lane, at, clip_id);
    let x = ClipView { start, ..lane[at] };
    let put = lane.update(at, x);
    assert(put =~= lane.remove(at).insert(at, x));
    assert(put.to_multiset() =~= lane.to_multiset().remove(lane[at]).insert(x));
    ordered_is_sorted_permutation(put, |c: ClipView| c.start);
}

/// Whether the rows of a timeline have times that can be written down, and no clip has the number
/// that stands for none.
pub open spec fn is_sound(t: TimelineView) -> bool {
    &&& forall|j: int| 0 <= j < t.lane_count() ==> times_fit(#[trigger] t.lanes()[j])
    &&& forall|j: int, k: int|
        0 <= j < t.lane_count() && 0 <= k < t.lane(j).len() ==> (#[trigger] t.lane(j)[k]).id
            != u64::MAX
}

/// Whether a link group went as one towards a wanted way.
pub open spec fn group_goes(t: TimelineView, after: TimelineView, group: u64, wanted: int) -> bool {
    exists|way: int| #[trigger]
        group_goes_by(t, after, group, way) && is_allowed_way(t, group, wanted, way)
}

/// A clip that is dragged freely on the main track starts where it was dropped, and nothing else
/// moves; a linked one takes its group along.
pub proof fn free_drag_on_the_main_track(s: StateView, clip_id: u64, start: int, at: int)
    requires
        is_place_of(s.repaired().timeline.v1_clips, at, clip_id),
        is_sound(s.repaired().timeline),
    ensures
        ({
            let t = s.repaired().timeline;
            let after = s.v1_moved_free(clip_id, start).timeline;
            match t.v1_clips[at].link_group_id {
                None => is_restarted(t.v1_clips, after.v1_clips, at, start) && after == (
                TimelineView { v1_clips: after.v1_clips, ..t }),
                Some(group) => group_goes(t, after, group, start - t.v1_clips[at].start),
            }
        }),
{
    let t = s.repaired().timeline;
    lemma_place_is(t.v1_clips, at, clip_id);
    match t.v1_clips[at].link_group_id {
        None => {
            lemma_restarted(t.v1_clips, at, clip_id, start);
        },
        Some(group) => {
            linked_clips_move_as_one(t, group, start - t.v1_clips[at].start);
        },
    }
}

/// Sound that is dragged freely starts where it was dropped, and nothing else moves. Linked sound
/// stays where it is, and the user is told.
pub proof fn free_drag_of_sound(s: StateView, track: int, clip_id: u64, start: int, at: int)
    requires
        0 <= track < s.repaired().timeline.audio_tracks.len(),
        is_place_of(s.repaired().timeline.audio_tracks[track].clips, at, clip_id),
    ensures
        ({
            let t = s.repaired().timeline;
            let row = t.audio_tracks[track].clips;
            let after = s.audio_moved_free(track, clip_id, start);
            if row[at].link_group_id is Some {
                after.timeline == t && after.ui_notice == Some(
                    "Linked audio is locked. Unlink clip first to drag audio."@,
                )
            } else {
                &&& after.ui_notice is None
                &&& after.timeline.audio_tracks.len() == t.audio_tracks.len()
                &&& is_restarted(row, after.timeline.audio_tracks[track].clips, at, start)
                &&& forall|k: int|
                    0 <= k < t.audio_tracks.len() && k != track
                        ==> #[trigger] after.timeline.audio_tracks[k] == t.audio_tracks[k]
                &&& after.timeline == (TimelineView {
                    audio_tracks: after.timeline.audio_tracks,
                    ..t
                })
            }
        }),
{
    let t = s.repaired().timeline;
    let row = t.audio_tracks[track].clips;
    lemma_place_is(row, at, clip_id);
    lemma_restarted(row, at, clip_id, start);
}

/// Whether a clip on a track above the main one may not be dragged: it is linked with the main track
/// while that track is magnetic.
pub open spec fn is_locked(s: StateView, c: ClipView) -> bool {
    &&& s.v1_move_mode is Magnetic
    &&& c.link_group_id is Some
    &&& exists|j: int|
        0 <= j < s.timeline.v1_clips.len() && (#[trigger] s.timeline.v1_clips[j]).link_group_id
            == c.link_group_id
}

/// A clip above the main track that is dragged freely starts where it was dropped, and nothing else
/// moves; a linked one takes its group along. One that is linked with a magnetic main track stays,
/// and the user is told.
pub proof fn free_drag_above_the_main_track(
    s: StateView,
    track: int,
    clip_id: u64,
    start: int,
    at: int,
)
    requires
        0 <= track < s.repaired().timeline.video_tracks.len(),
        is_place_of(s.repaired().timeline.video_tracks[track].clips, at, clip_id),
        is_sound(s.repaired().timeline),
    ensures
        ({
            let r = s.repaired();
            let t = r.timeline;
            let row = t.video_tracks[track].clips;
            let c = row[at];
            let after = s.video_moved_free(track, clip_id, start);
            if is_locked(r, c) {
                after.timeline == t && after.ui_notice == Some(
                    "Linked V2/V3 is locked while V1 is Magnetic. Move V1 instead."@,
                )
            } else {
                &&& after.ui_notice is None
                &&& match c.link_group_id {
                    None => is_restarted(row, after.timeline.video_tracks[track].clips, at, start)
                        && after.timeline == (TimelineView {
                        video_tracks: t.video_tracks.update(
                            track,
                            after.timeline.video_tracks[track],
                        ),
                        ..t
                    }),
                    Some(group) => group_goes(t, after.timeline, group, start - c.start) || (
                    after.timeline == t && start < c.start && exists|j: int|
                        0 <= j < t.v1_clips.len() && (#[trigger] t.v1_clips[j]).link_group_id
                            == Some(group) && t.v1_clips[j].start <= 1000),
                }
            }
        }),
{
    let r = s.repaired();
    let t = r.timeline;
    let row = t.video_tracks[track].clips;
    let c = row[at];
    lemma_place_is(row, at, clip_id);
    lemma_restarted(row, at, clip_id, start);
    if c.link_group_id is Some {
        let group = c.link_group_id->0;
        let q = |x: ClipView| x.link_group_id == Some(group);
        if is_locked(r, c) {
            let j = choose|j: int|
                0 <= j < t.v1_clips.len() && (#[trigger] t.v1_clips[j]).link_group_id
                    == c.link_group_id;
            assert(q(t.v1_clips[j]));
        } else if crate::moves::has_group(t.v1_clips, group) {
            let j = choose|j: int| 0 <= j < t.v1_clips.len() && q(#[trigger] t.v1_clips[j]);
            assert(t.v1_clips[j].link_group_id == c.link_group_id);
        }
        linked_clips_move_as_one(t, group, start - c.start);
        lemma_wall(t.v1_clips, group);
    }
}

proof fn lemma_wall(clips: Lane, group: u64)
    ensures
        crate::moves::earliest_in_group(clips, group) matches Some(t) ==> exists|j: int|
            0 <= j < clips.len() && (#[trigger] clips[j]).link_group_id == Some(group)
                && clips[j].start == t,
    decreases clips.len(),
{
    if clips.len() > 0 {
        let front = clips.drop_last();
        lemma_wall(front, group);
        if let Some(t) = crate::moves::earliest_in_group(front, group) {
            let j = choose|j: int|
                0 <= j < front.len() && (#[trigger] front[j]).link_group_id == Some(group)
                    && front[j].start == t;
            assert(clips[j] == front[j]);
        }
        assert(clips[clips.len() - 1] == clips.last());
    }
}

/// A clip that is dragged to another track above the main one leaves its own and is on that one, in
/// order, and nothing else changes.
pub proof fn rerouted_clip_changes_tracks(
    t: TimelineView,
    clip_id: u64,
    source: int,
    target: int,
    at: int,
)
    requires
        0 <= source < t.video_tracks.len(),
        0 <= target < t.video_tracks.len(),
        source != target,
        is_place_of(t.video_tracks[source].clips, at, clip_id),
        forall|k: int, j: int|
            0 <= k < source && 0 <= j < t.video_tracks[k].clips.len() ==> (
            #[trigger] t.video_tracks[k].clips[j]).id != clip_id,
    ensures
        ({
            let after = t.video_rerouted(clip_id, target);
            let c = t.video_tracks[source].clips[at];
            &&& after == (TimelineView { video_tracks: after.video_tracks, ..t })
            &&& after.video_tracks.len() == t.video_tracks.len()
            &&& after.video_tracks[source].clips == t.video_tracks[source].clips.remove(at)
            &&& after.video_tracks[target].clips.to_multiset()
                == t.video_tracks[target].clips.to_multiset().insert(c)
            &&& in_order(after.video_tracks[target].clips, |x: ClipView| x.start)
            &&& forall|k: int|
                0 <= k < t.video_tracks.len() && k != source && k != target
                    ==> #[trigger] after.video_tracks[k] == t.video_tracks[k]
        }),
{
    broadcast use vstd::seq_lib::group_to_multiset_ensures;

    let row = t.video_tracks[source].clips;
    lemma_place_is(row, at, clip_id);
    lemma_video_track(t, clip_id, source, 0);
    let there = t.video_tracks[target].clips;
    ordered_is_sorted_permutation(there.push(row[at]), |c: ClipView| c.start);
    assert(there.push(row[at]).to_multiset() =~= there.to_multiset().insert(row[at]));
}

proof fn lemma_video_track(t: TimelineView, clip_id: u64, source: int, k: int)
    requires
        0 <= k <= source < t.video_tracks.len(),
        t.has_video_clip(source, clip_id),
        forall|k: int, j: int|
            0 <= k < source && 0 <= j < t.video_tracks[k].clips.len() ==> (
            #[trigger] t.video_tracks[k].clips[j]).id != clip_id,
    ensures
        t.video_track_of(clip_id, k) == source,
    decreases source - k,
{
    if k < source {
        let clips = t.video_tracks[k].clips;
        let p = |c: ClipView| c.id == clip_id;
        assert forall|j: int| 0 <= j < clips.len() implies !p(#[trigger] clips[j]) by {
            assert(t.video_tracks[k].clips[j].id != clip_id);
        }
        lemma_first_is(clips, p, clips.len() as int);
        lemma_video_track(t, clip_id, source, k + 1);
    }
}

/// A subtitle that is dragged starts where it was dropped, and nothing else changes but the order.
pub proof fn dragged_subtitle_starts_there(t: TimelineView, track: int, at: int, start: int)
    requires
        0 <= track < t.subtitle_tracks.len(),
        0 <= at < t.subtitle_tracks[track].clips.len(),
        forall|j: int|
            0 <= j < at ==> (#[trigger] t.subtitle_tracks[track].clips[j]).id
                != t.subtitle_tracks[track].clips[at].id,
    ensures
        ({
            let row = t.subtitle_tracks[track].clips;
            let after = t.subtitle_dragged(track, row[at].id, start);
            let out = after.subtitle_tracks[track].clips;
            &&& out.to_multiset() == row.to_multiset().remove(row[at]).insert(
                SubtitleClipView { start, ..row[at] },
            )
            &&& in_order(out, |c: SubtitleClipView| c.start)
            &&& after == (TimelineView {
                subtitle_tracks: t.subtitle_tracks.update(track, after.subtitle_tracks[track]),
                ..t
            })
        }),
{
    broadcast use vstd::seq_lib::group_to_multiset_ensures;

    let row = t.subtitle_tracks[track].clips;
    let id = row[at].id;
    let p = |c: SubtitleClipView| c.id == id;
    assert forall|j: int| 0 <= j < at implies !p(#[trigger] row[j]) by {}
    lemma_first_is(row, p, at);
    let x = SubtitleClipView { start, ..row[at] };
    let put = row.update(at, x);
    assert(put =~= row.remove(at).insert(at, x));
    assert(put.to_multiset() =~= row.to_multiset().remove(row[at]).insert(x));
    ordered_is_sorted_permutation(put, |c: SubtitleClipView| c.start);
    let after = t.subtitle_dragged(track, id, start);
    assert(after.subtitle_tracks =~= t.subtitle_tracks.update(track, after.subtitle_tracks[track]));
}

} // verus!
