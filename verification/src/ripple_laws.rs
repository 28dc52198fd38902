//! What is shown after a stretch of time was taken out of every track.
use crate::clip::ClipView;
use crate::lanes::{lemma_lanes_put, Lane};
use crate::lists::{first, lemma_first, some};
use crate::order::{ordered, ordered_is_sorted_permutation};
use crate::razor::{
    cut_all, cut_all_subtitles, cut_first, cut_first_subtitle, cut_place, first_straddler, group_of,
    lemma_cut_first_shrinks, lemma_cut_first_subtitle_shrinks, pieces_are_long_enough, shown_source,
    straddlers, straddles, subtitle_straddlers, subtitle_straddles, SHORTEST_PIECE,
};
use crate::ripple::{
    cut_lanes, cut_range, cut_subtitle_range, cut_subtitle_tracks, lane_closed, lemma_cut_lanes,
    lemma_cut_subtitle_tracks, lemma_filter_keeps_all, lies_in, pulled, subtitle_lies_in,
    subtitle_pulled, subtitles_closed,
};
use crate::state::StateView;
use crate::subtitle::{SubtitleClipView, SubtitleTrackView};
use crate::tracks::TimelineView;
use vstd::prelude::*;

verus! {

// ---------------------------------------------------------------------------
// Entries of lists
// ---------------------------------------------------------------------------

/// Putting a list in order keeps whether some entry has a property.
proof fn lemma_some_ordered<T>(s: Seq<T>, key: spec_fn(T) -> int, q: spec_fn(T) -> bool)
    ensures
        some(ordered(s, key), q) == some(s, q),
{
    broadcast use vstd::seq_lib::group_to_multiset_ensures;

    ordered_is_sorted_permutation(s, key);
    let o = ordered(s, key);
    if some(o, q) {
        let i = choose|i: int| 0 <= i < o.len() && q(#[trigger] o[i]);
        assert(o.contains(o[i]));
        assert(o.to_multiset().count(o[i]) > 0);
        assert(s.contains(o[i]));
        let j = choose|j: int| 0 <= j < s.len() && s[j] == o[i];
        assert(q(s[j]));
    }
    if some(s, q) {
        let i = choose|i: int| 0 <= i < s.len() && q(#[trigger] s[i]);
        assert(s.contains(s[i]));
        assert(s.to_multiset().count(s[i]) > 0);
        assert(o.contains(s[i]));
        let j = choose|j: int| 0 <= j < o.len() && o[j] == s[i];
        assert(q(o[j]));
    }
}

/// Some entry has a property if it is kept by the pieces of the one that they replace.
proof fn lemma_some_pieces<T>(
    s: Seq<T>,
    at: int,
    left: T,
    right: T,
    key: spec_fn(T) -> int,
    q: spec_fn(T) -> bool,
)
    requires
        0 <= at < s.len(),
        (q(left) || q(right)) == q(s[at]),
    ensures
        some(ordered(s.take(at) + seq![left, right] + s.skip(at + 1), key), q) == some(s, q),
{
    let parts = s.take(at) + seq![left, right] + s.skip(at + 1);
    lemma_some_ordered(parts, key, q);
    assert(parts[at] == left && parts[at + 1] == right);
    if some(parts, q) {
        let i = choose|i: int| 0 <= i < parts.len() && q(#[trigger] parts[i]);
        if i < at {
            assert(q(s[i]));
        } else if i > at + 1 {
            assert(q(s[i - 1]));
        } else {
            assert(q(s[at]));
        }
    }
    if some(s, q) {
        let i = choose|i: int| 0 <= i < s.len() && q(#[trigger] s[i]);
        if i < at {
            assert(parts[i] == s[i]);
        } else if i > at {
            assert(parts[i + 1] == s[i]);
        } else if q(left) {
            assert(q(parts[at]));
        } else {
            assert(q(parts[at + 1]));
        }
    }
}

/// Whether some entry that is kept has a property once it is changed.
proof fn lemma_some_kept<T>(
    s: Seq<T>,
    p: spec_fn(T) -> bool,
    f: spec_fn(T) -> T,
    key: spec_fn(T) -> int,
    q: spec_fn(T) -> bool,
    r: spec_fn(T) -> bool,
)
    requires
        forall|i: int|
            0 <= i < s.len() ==> ((p(s[i]) && q(f(s[i]))) == r(#[trigger] s[i])),
    ensures
        some(ordered(s.filter(p).map_values(f), key), q) == some(s, r),
{
    let kept = s.filter(p);
    let out = kept.map_values(f);
    lemma_some_ordered(out, key, q);
    lemma_filter_keeps_all(s, p);
    if some(out, q) {
        let i = choose|i: int| 0 <= i < out.len() && q(#[trigger] out[i]);
        assert(kept.contains(kept[i]));
        let j = choose|j: int| 0 <= j < s.len() && s[j] == kept[i];
        assert(p(s[j]));
        assert(r(s[j]));
    }
    if some(s, r) {
        let i = choose|i: int| 0 <= i < s.len() && r(#[trigger] s[i]);
        assert(s.contains(s[i]));
        assert(kept.contains(s[i]));
        let j = choose|j: int| 0 <= j < kept.len() && kept[j] == s[i];
        assert(out[j] == f(s[i]));
        assert(q(out[j]));
    }
}

// ---------------------------------------------------------------------------
// Rows of clips
// ---------------------------------------------------------------------------

/// Whether a clip shows a time of a file at a time of the timeline.
pub open spec fn clip_shows(c: ClipView, x: int, file: Seq<char>, source: int) -> bool {
    c.start <= x < c.end() && c.file_path == file && shown_source(c, x) == source
}

/// Whether a row shows a time of a file at a time of the timeline.
pub open spec fn lane_shows(lane: Lane, x: int, file: Seq<char>, source: int) -> bool {
    some(lane, |c: ClipView| clip_shows(c, x, file, source))
}

/// Whether the clip has the time inside and a piece that a cut there would leave is too short.
pub open spec fn resists(c: ClipView, t: int) -> bool {
    straddles(c, t) && !pieces_are_long_enough(c, t)
}

/// Whether every clip of the row that has the time inside can be cut there.
pub open spec fn can_be_cut(lane: Lane, t: int) -> bool {
    !some(lane, |c: ClipView| resists(c, t))
}

/// Whether every clip of the row that reaches over an end of the stretch can be cut there, also
/// where it reaches over both.
pub open spec fn can_be_cut_at_both(lane: Lane, start: int, end: int) -> bool {
    &&& can_be_cut(lane, start)
    &&& can_be_cut(lane, end)
    &&& start + SHORTEST_PIECE <= end || !some(
        lane,
        |c: ClipView| straddles(c, start) && straddles(c, end),
    )
}

/// Whether a property is kept by the pieces of every clip that is cut at a time.
spec fn kept_by_cuts(q: spec_fn(ClipView) -> bool, t: int) -> bool {
    forall|c: ClipView, a: u64, b: u64, group: Option<u64>|
        straddles(c, t) && pieces_are_long_enough(c, t) ==> (q(#[trigger] c.left_of(t, a, group))
            || q(#[trigger] c.right_of(t, b, group))) == q(c)
}

proof fn lemma_cut_all_keeps(lane: Lane, next_id: int, t: int, q: spec_fn(ClipView) -> bool)
    requires
        can_be_cut(lane, t),
        kept_by_cuts(q, t),
    ensures
        some(cut_all(lane, next_id, t).clips, q) == some(lane, q),
        !some(cut_all(lane, next_id, t).clips, |c: ClipView| straddles(c, t)),
    decreases straddlers(lane, t),
{
    let p = |c: ClipView| straddles(c, t);
    let bad = |c: ClipView| resists(c, t);
    let at = first_straddler(lane, t);
    lemma_first(lane, p);
    lemma_cut_first_shrinks(lane, next_id, t);
    let cut = cut_first(lane, next_id, t);
    if at < lane.len() {
        let id = lane[at].id;
        let same = |c: ClipView| c.id == id && straddles(c, t);
        lemma_first(lane, same);
        let place = cut_place(lane, id, t);
        assert(p(lane[at]));
        assert(same(lane[at]));
        assert(place < lane.len());
        assert(same(lane[place]));
        assert(!bad(lane[place]));
        let group = group_of(lane, id);
        let left = lane[place].left_of(t, next_id as u64, group);
        let right = lane[place].right_of(t, (next_id + 1) as u64, group);
        let key = |c: ClipView| c.start;
        lemma_some_pieces(lane, place, left, right, key, q);
        assert(!bad(left) && !bad(right));
        lemma_some_pieces(lane, place, left, right, key, bad);
        lemma_cut_all_keeps(cut.clips, cut.next_id, t, q);
    } else {
        assert forall|i: int| 0 <= i < lane.len() implies !p(#[trigger] lane[i]) by {}
    }
}

/// A row that was cut at both ends of a stretch shows what it showed, and no clip reaches over an
/// end.
proof fn lemma_cut_range_keeps(
    lane: Lane,
    next_id: int,
    start: int,
    end: int,
    q: spec_fn(ClipView) -> bool,
)
    requires
        start < end,
        can_be_cut_at_both(lane, start, end),
        kept_by_cuts(q, start),
        kept_by_cuts(q, end),
    ensures
        some(cut_range(lane, next_id, start, end).clips, q) == some(lane, q),
        !some(cut_range(lane, next_id, start, end).clips, |c: ClipView| straddles(c, start)),
        !some(cut_range(lane, next_id, start, end).clips, |c: ClipView| straddles(c, end)),
{
    let a = cut_all(lane, next_id, start);
    let over = |c: ClipView| straddles(c, start);
    let bad = |c: ClipView| resists(c, end);
    let long = |c: ClipView| straddles(c, start) && straddles(c, end);
    let either = |c: ClipView| bad(c) || long(c);
    lemma_cut_all_keeps(lane, next_id, start, q);
    if start + SHORTEST_PIECE <= end {
        assert(kept_by_cuts(bad, start));
        lemma_cut_all_keeps(lane, next_id, start, bad);
    } else {
        assert(kept_by_cuts(either, start));
        assert forall|i: int| 0 <= i < lane.len() implies !either(#[trigger] lane[i]) by {
            assert(!bad(lane[i]) && !long(lane[i]));
        }
        lemma_cut_all_keeps(lane, next_id, start, either);
        assert forall|i: int| 0 <= i < a.clips.len() implies !bad(#[trigger] a.clips[i]) by {
            assert(!either(a.clips[i]));
        }
    }
    lemma_cut_all_keeps(a.clips, a.next_id, end, q);
    assert(kept_by_cuts(over, end));
    lemma_cut_all_keeps(a.clips, a.next_id, end, over);
}

/// The time at which was shown what is shown at a time now that a stretch is gone.
pub open spec fn time_before(x: int, start: int, end: int) -> int {
    if x < start {
        x
    } else {
        x + (end - start)
    }
}

/// A row without a stretch shows, at every time, what it showed at that time or, from the stretch
/// on, later by its length: nothing of the stretch is left, and nothing else is gone.
proof fn lemma_lane_without_stretch(
    lane: Lane,
    next_id: int,
    start: int,
    end: int,
    x: int,
    file: Seq<char>,
    source: int,
)
    requires
        start < end,
        can_be_cut_at_both(lane, start, end),
    ensures
        lane_shows(
            lane_closed(cut_range(lane, next_id, start, end).clips, start, end),
            x,
            file,
            source,
        ) == lane_shows(lane, time_before(x, start, end), file, source),
{
    let y = time_before(x, start, end);
    let q = |c: ClipView| clip_shows(c, x, file, source);
    let r = |c: ClipView| clip_shows(c, y, file, source);
    assert(kept_by_cuts(r, start));
    assert(kept_by_cuts(r, end));
    lemma_cut_range_keeps(lane, next_id, start, end, r);
    let cut = cut_range(lane, next_id, start, end).clips;
    let p = |c: ClipView| !lies_in(c, start, end);
    let f = |c: ClipView| pulled(c, start, end);
    let a = |c: ClipView| straddles(c, start);
    let b = |c: ClipView| straddles(c, end);
    assert forall|i: int| 0 <= i < cut.len() implies ((p(cut[i]) && q(f(cut[i]))) == r(
        #[trigger] cut[i],
    )) by {
        assert(!a(cut[i]));
        assert(!b(cut[i]));
    }
    lemma_some_kept(cut, p, f, |c: ClipView| c.start, q, r);
}

// ---------------------------------------------------------------------------
// Subtitles
// ---------------------------------------------------------------------------

/// Whether a subtitle shows a text at a time.
pub open spec fn subtitle_shows(c: SubtitleClipView, x: int, text: Seq<char>) -> bool {
    c.start <= x < c.end() && c.text == text
}

/// Whether a text is shown among subtitles at a time.
pub open spec fn subtitles_show(clips: Seq<SubtitleClipView>, x: int, text: Seq<char>) -> bool {
    some(clips, |c: SubtitleClipView| subtitle_shows(c, x, text))
}

/// Whether the subtitle has the time inside and a piece that a cut there would leave is too short.
pub open spec fn subtitle_resists(c: SubtitleClipView, t: int) -> bool {
    subtitle_straddles(c, t) && !(t - c.start >= SHORTEST_PIECE && c.end() - t >= SHORTEST_PIECE)
}

/// Whether every subtitle that has the time inside can be cut there.
pub open spec fn subtitles_can_be_cut(clips: Seq<SubtitleClipView>, t: int) -> bool {
    !some(clips, |c: SubtitleClipView| subtitle_resists(c, t))
}

/// Whether every subtitle that reaches over an end of the stretch can be cut there, also where it
/// reaches over both.
pub open spec fn subtitles_can_be_cut_at_both(
    clips: Seq<SubtitleClipView>,
    start: int,
    end: int,
) -> bool {
    &&& subtitles_can_be_cut(clips, start)
    &&& subtitles_can_be_cut(clips, end)
    &&& start + SHORTEST_PIECE <= end || !some(
        clips,
        |c: SubtitleClipView| subtitle_straddles(c, start) && subtitle_straddles(c, end),
    )
}

spec fn left_subtitle(c: SubtitleClipView, t: int, id: u64) -> SubtitleClipView {
    SubtitleClipView { id, duration: t - c.start, ..c }
}

spec fn right_subtitle(c: SubtitleClipView, t: int, id: u64) -> SubtitleClipView {
    SubtitleClipView { id, start: t, duration: c.end() - t, ..c }
}

/// Whether a property is kept by the pieces of every subtitle that is cut at a time.
spec fn kept_by_subtitle_cuts(q: spec_fn(SubtitleClipView) -> bool, t: int) -> bool {
    forall|c: SubtitleClipView, a: u64, b: u64|
        subtitle_straddles(c, t) && !subtitle_resists(c, t) ==> (q(#[trigger] left_subtitle(c, t, a))
            || q(#[trigger] right_subtitle(c, t, b))) == q(c)
}

proof fn lemma_cut_all_subtitles_keeps(
    clips: Seq<SubtitleClipView>,
    next_id: int,
    t: int,
    q: spec_fn(SubtitleClipView) -> bool,
)
    requires
        subtitles_can_be_cut(clips, t),
        kept_by_subtitle_cuts(q, t),
    ensures
        some(cut_all_subtitles(clips, next_id, t).clips, q) == some(clips, q),
        !some(
            cut_all_subtitles(clips, next_id, t).clips,
            |c: SubtitleClipView| subtitle_straddles(c, t),
        ),
    decreases subtitle_straddlers(clips, t),
{
    let p = |c: SubtitleClipView| subtitle_straddles(c, t);
    let bad = |c: SubtitleClipView| subtitle_resists(c, t);
    let at = first(clips, p);
    lemma_first(clips, p);
    lemma_cut_first_subtitle_shrinks(clips, next_id, t);
    let cut = cut_first_subtitle(clips, next_id, t);
    if at < clips.len() {
        assert(p(clips[at]));
        assert(!bad(clips[at]));
        let left = left_subtitle(clips[at], t, next_id as u64);
        let right = right_subtitle(clips[at], t, (next_id + 1) as u64);
        let key = |c: SubtitleClipView| c.start;
        lemma_some_pieces(clips, at, left, right, key, q);
        assert(!bad(left) && !bad(right));
        lemma_some_pieces(clips, at, left, right, key, bad);
        lemma_cut_all_subtitles_keeps(cut.clips, cut.next_id, t, q);
    } else {
        assert forall|i: int| 0 <= i < clips.len() implies !p(#[trigger] clips[i]) by {}
    }
}

proof fn lemma_subtitles_without_stretch(
    clips: Seq<SubtitleClipView>,
    next_id: int,
    start: int,
    end: int,
    x: int,
    text: Seq<char>,
)
    requires
        start < end,
        subtitles_can_be_cut_at_both(clips, start, end),
    ensures
        subtitles_show(
            subtitles_closed(cut_subtitle_range(clips, next_id, start, end).clips, start, end),
            x,
            text,
        ) == subtitles_show(clips, time_before(x, start, end), text),
{
    let y = time_before(x, start, end);
    let q = |c: SubtitleClipView| subtitle_shows(c, x, text);
    let r = |c: SubtitleClipView| subtitle_shows(c, y, text);
    let a = |c: SubtitleClipView| subtitle_straddles(c, start);
    let b = |c: SubtitleClipView| subtitle_straddles(c, end);
    let bad = |c: SubtitleClipView| subtitle_resists(c, end);
    let front = cut_all_subtitles(clips, next_id, start);
    let long = |c: SubtitleClipView| subtitle_straddles(c, start) && subtitle_straddles(c, end);
    let either = |c: SubtitleClipView| bad(c) || long(c);
    assert(kept_by_subtitle_cuts(r, start));
    lemma_cut_all_subtitles_keeps(clips, next_id, start, r);
    if start + SHORTEST_PIECE <= end {
        assert(kept_by_subtitle_cuts(bad, start));
        lemma_cut_all_subtitles_keeps(clips, next_id, start, bad);
    } else {
        assert(kept_by_subtitle_cuts(either, start));
        assert forall|i: int| 0 <= i < clips.len() implies !either(#[trigger] clips[i]) by {
            assert(!bad(clips[i]) && !long(clips[i]));
        }
        lemma_cut_all_subtitles_keeps(clips, next_id, start, either);
        assert forall|i: int| 0 <= i < front.clips.len() implies !bad(
            #[trigger] front.clips[i],
        ) by {
            assert(!either(front.clips[i]));
        }
    }
    assert(kept_by_subtitle_cuts(r, end));
    assert(kept_by_subtitle_cuts(a, end));
    lemma_cut_all_subtitles_keeps(front.clips, front.next_id, end, r);
    lemma_cut_all_subtitles_keeps(front.clips, front.next_id, end, a);
    let cut = cut_subtitle_range(clips, next_id, start, end).clips;
    let p = |c: SubtitleClipView| !subtitle_lies_in(c, start, end);
    let f = |c: SubtitleClipView| subtitle_pulled(c, start, end);
    assert forall|i: int| 0 <= i < cut.len() implies ((p(cut[i]) && q(f(cut[i]))) == r(
        #[trigger] cut[i],
    )) by {
        assert(!a(cut[i]));
        assert(!b(cut[i]));
    }
    lemma_some_kept(cut, p, f, |c: SubtitleClipView| c.start, q, r);
}

// ---------------------------------------------------------------------------
// All rows
// ---------------------------------------------------------------------------

proof fn lemma_lane_is_cut(
    lanes: Seq<Lane>,
    n: int,
    next_id: int,
    start: int,
    end: int,
    i: int,
)
    requires
        0 <= i < n <= lanes.len(),
    ensures
        cut_lanes(lanes, n, next_id, start, end).lanes.len() == lanes.len(),
        cut_lanes(lanes, n, next_id, start, end).lanes[i] == cut_range(
            lanes[i],
            cut_lanes(lanes, i, next_id, start, end).next_id,
            start,
            end,
        ).clips,
    decreases n,
{
    lemma_cut_lanes(lanes, n - 1, next_id, start, end);
    if i < n - 1 {
        lemma_lane_is_cut(lanes, n - 1, next_id, start, end, i);
    }
}

proof fn lemma_subtitles_are_cut(
    tracks: Seq<SubtitleTrackView>,
    n: int,
    next_id: int,
    start: int,
    end: int,
    k: int,
)
    requires
        0 <= k < n <= tracks.len(),
    ensures
        cut_subtitle_tracks(tracks, n, next_id, start, end).tracks.len() == tracks.len(),
        cut_subtitle_tracks(tracks, n, next_id, start, end).tracks[k].clips == cut_subtitle_range(
            tracks[k].clips,
            cut_subtitle_tracks(tracks, k, next_id, start, end).next_id,
            start,
            end,
        ).clips,
    decreases n,
{
    lemma_cut_subtitle_tracks(tracks, n - 1, next_id, start, end);
    if k < n - 1 {
        lemma_subtitles_are_cut(tracks, n - 1, next_id, start, end, k);
    }
}

/// The rows after a stretch was taken out are those that were cut and closed.
proof fn lemma_rippled_rows(s: StateView, start: int, end: int)
    requires
        start < end,
    ensures
        ({
            let after = s.timeline.cut_at_both(s.next_clip_id as int, start, end).0.closed(
                start,
                end,
            );
            let t = s.rippled(start, end).timeline;
            t.lanes() == after.lanes() && t.lane_count() == after.lane_count()
                && t.subtitle_tracks == after.subtitle_tracks
        }),
{
    reveal(StateView::saved);
    let u = s.saved(false);
    assert(u.timeline == s.timeline && u.next_clip_id == s.next_clip_id);
    let after = s.timeline.cut_at_both(s.next_clip_id as int, start, end).0.closed(start, end);
    let t = s.rippled(start, end).timeline;
    assert(t.v1_clips == after.v1_clips && t.audio_tracks == after.audio_tracks && t.video_tracks
        == after.video_tracks);
    assert(t.lanes() =~= after.lanes());
}

/// Taking a stretch out of every track leaves in each row just what was outside it: at every time
/// before the stretch the row shows what it showed, and from there on what it showed later by the
/// length of the stretch. A clip that reaches over an end of the stretch has to be long enough to
/// be cut there.
pub proof fn taking_out_shows_the_rest(
    s: StateView,
    start: int,
    end: int,
    i: int,
    x: int,
    file: Seq<char>,
    source: int,
)
    requires
        start < end,
        0 <= i < s.timeline.lane_count(),
        can_be_cut_at_both(s.timeline.lane(i), start, end),
    ensures
        s.rippled(start, end).timeline.lane_count() == s.timeline.lane_count(),
        lane_shows(s.rippled(start, end).timeline.lane(i), x, file, source) == lane_shows(
            s.timeline.lane(i),
            time_before(x, start, end),
            file,
            source,
        ),
{
    reveal(TimelineView::cut_at_both);
    reveal(TimelineView::closed);
    let t = s.timeline;
    let n = t.lane_count() as int;
    let id = s.next_clip_id as int;
    let cut = cut_lanes(t.lanes(), n, id, start, end);
    lemma_lane_is_cut(t.lanes(), n, id, start, end, i);
    lemma_lanes_put(t, cut.lanes);
    let both = t.cut_at_both(id, start, end).0;
    assert(both.lanes() =~= t.with_lanes(cut.lanes).lanes());
    assert(both.lane(i) == both.lanes()[i]);
    let closed = Seq::new(both.lane_count(), |j: int| lane_closed(both.lane(j), start, end));
    lemma_lanes_put(both, closed);
    let after = both.closed(start, end);
    assert(after.lanes() =~= both.with_lanes(closed).lanes());
    assert(after.lane(i) == after.lanes()[i]);
    lemma_rippled_rows(s, start, end);
    let t_after = s.rippled(start, end).timeline;
    assert(t_after.lane(i) == t_after.lanes()[i]);
    lemma_lane_without_stretch(
        t.lane(i),
        cut_lanes(t.lanes(), i, id, start, end).next_id,
        start,
        end,
        x,
        file,
        source,
    );
}

/// Taking a stretch out of every track leaves in each row of subtitles just what was outside it, as
/// it does in the rows of clips.
pub proof fn taking_out_shows_other_subtitles(
    s: StateView,
    start: int,
    end: int,
    k: int,
    x: int,
    text: Seq<char>,
)
    requires
        start < end,
        0 <= k < s.timeline.subtitle_tracks.len(),
        subtitles_can_be_cut_at_both(s.timeline.subtitle_tracks[k].clips, start, end),
    ensures
        s.rippled(start, end).timeline.subtitle_tracks.len() == s.timeline.subtitle_tracks.len(),
        subtitles_show(s.rippled(start, end).timeline.subtitle_tracks[k].clips, x, text)
            == subtitles_show(
            s.timeline.subtitle_tracks[k].clips,
            time_before(x, start, end),
            text,
        ),
{
    reveal(TimelineView::cut_at_both);
    reveal(TimelineView::closed);
    let t = s.timeline;
    let id = cut_lanes(
        t.lanes(),
        t.lane_count() as int,
        s.next_clip_id as int,
        start,
        end,
    ).next_id;
    let n = t.subtitle_tracks.len() as int;
    lemma_rippled_rows(s, start, end);
    lemma_subtitles_are_cut(t.subtitle_tracks, n, id, start, end, k);
    lemma_subtitles_without_stretch(
        t.subtitle_tracks[k].clips,
        cut_subtitle_tracks(t.subtitle_tracks, k, id, start, end).next_id,
        start,
        end,
        x,
        text,
    );
}

} // verus!
