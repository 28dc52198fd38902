//! Taking a stretch of time out of every track.
use crate::clip::{by_start, sort_clips, Clip, ClipView};
use crate::copying::views;
use crate::lanes::{lemma_lanes_put, lemma_lanes_put_back, Lane};
use crate::links::lemma_flatten_step;
use crate::lists::{last_id, last_of, lemma_filter_views, retain_by, some};
use crate::razor::{
    cut_all, cut_all_subtitles, cut_first, cut_first_subtitle, lemma_cut_first_shrinks,
    lemma_cut_first_subtitle_shrinks, razor_all_clips_at, razor_all_subtitles_at, sources_fit,
    straddlers, straddles, subtitle_straddlers, subtitle_straddles,
};
use crate::state::{GlobalState, Selection, SelectionView, StateView};
use crate::subtitle::{
    sort_subtitles, subtitles_by_start, SubtitleClip, SubtitleClipView, SubtitleTrackView,
};
use crate::time::Duration;
use crate::tracks::{Timeline, TimelineView};
use vstd::prelude::*;

verus! {

broadcast use crate::copying::group_views;

// ---------------------------------------------------------------------------
// How many ids cuts need
// ---------------------------------------------------------------------------

proof fn lemma_filter_len<T>(s: Seq<T>, p: spec_fn(T) -> bool)
    ensures
        s.filter(p).len() <= s.len(),
    decreases s.len(),
{
    reveal(Seq::filter);
    if s.len() > 0 {
        lemma_filter_len(s.drop_last(), p);
    }
}

proof fn lemma_cut_all_size(clips: Lane, next_id: int, t: int)
    ensures
        cut_all(clips, next_id, t).clips.len() <= clips.len() + straddlers(clips, t),
        straddlers(clips, t) <= clips.len(),
    decreases straddlers(clips, t),
{
    lemma_filter_len(clips, |c: ClipView| straddles(c, t));
    lemma_cut_first_shrinks(clips, next_id, t);
    let cut = cut_first(clips, next_id, t);
    if cut.right_id is Some {
        lemma_cut_all_size(cut.clips, cut.next_id, t);
        let at = crate::razor::first_straddler(clips, t);
        let place = crate::razor::cut_place(clips, clips[at].id, t);
        crate::lists::lemma_first(
            clips,
            |c: ClipView| c.id == clips[at].id && straddles(c, t),
        );
        let group = crate::razor::group_of(clips, clips[at].id);
        let parts = clips.take(place) + seq![
            clips[place].left_of(t, next_id as u64, group),
            clips[place].right_of(t, (next_id + 1) as u64, group),
        ] + clips.skip(place + 1);
        crate::order::ordered_is_sorted_permutation(parts, |c: ClipView| c.start);
        assert(cut.clips.len() == clips.len() + 1);
    }
}

proof fn lemma_cut_all_subtitles_size(clips: Seq<SubtitleClipView>, next_id: int, t: int)
    ensures
        cut_all_subtitles(clips, next_id, t).clips.len() <= clips.len() + subtitle_straddlers(
            clips,
            t,
        ),
        subtitle_straddlers(clips, t) <= clips.len(),
    decreases subtitle_straddlers(clips, t),
{
    let p = |c: SubtitleClipView| subtitle_straddles(c, t);
    lemma_filter_len(clips, p);
    lemma_cut_first_subtitle_shrinks(clips, next_id, t);
    let cut = cut_first_subtitle(clips, next_id, t);
    if cut.right_id is Some {
        lemma_cut_all_subtitles_size(cut.clips, cut.next_id, t);
        let at = crate::lists::first(clips, p);
        crate::lists::lemma_first(clips, p);
        let c = clips[at];
        let parts = clips.take(at) + seq![
            SubtitleClipView { id: next_id as u64, duration: t - c.start, ..c },
            SubtitleClipView { id: (next_id + 1) as u64, start: t, duration: c.end() - t, ..c },
        ] + clips.skip(at + 1);
        crate::order::ordered_is_sorted_permutation(parts, |c: SubtitleClipView| c.start);
        assert(cut.clips.len() == clips.len() + 1);
    }
}

// ---------------------------------------------------------------------------
// Cutting all rows at both ends of the stretch
// ---------------------------------------------------------------------------

/// Rows after cuts, and the next free id.
pub ghost struct LaneCuts {
    pub lanes: Seq<Lane>,
    pub next_id: int,
}

/// The row cut at the start and at the end of the stretch.
pub open spec fn cut_range(lane: Lane, next_id: int, start: int, end: int) -> crate::razor::Cut {
    let a = cut_all(lane, next_id, start);
    cut_all(a.clips, a.next_id, end)
}

/// The first `n` rows cut at the start and at the end of the stretch.
pub open spec fn cut_lanes(lanes: Seq<Lane>, n: int, next_id: int, start: int, end: int) -> LaneCuts
    decreases n,
{
    if n <= 0 {
        LaneCuts { lanes, next_id }
    } else {
        let before = cut_lanes(lanes, n - 1, next_id, start, end);
        let cut = cut_range(lanes[n - 1], before.next_id, start, end);
        LaneCuts { lanes: before.lanes.update(n - 1, cut.clips), next_id: cut.next_id }
    }
}

pub proof fn lemma_cut_lanes(lanes: Seq<Lane>, n: int, next_id: int, start: int, end: int)
    requires
        0 <= n <= lanes.len(),
    ensures
        cut_lanes(lanes, n, next_id, start, end).lanes.len() == lanes.len(),
        forall|i: int|
            n <= i < lanes.len() ==> #[trigger] cut_lanes(
                lanes,
                n,
                next_id,
                start,
                end,
            ).lanes[i] == lanes[i],
    decreases n,
{
    if n > 0 {
        lemma_cut_lanes(lanes, n - 1, next_id, start, end);
    }
}

/// Rows of subtitles after cuts, and the next free id.
pub ghost struct SubtitleTrackCuts {
    pub tracks: Seq<SubtitleTrackView>,
    pub next_id: int,
}

/// The subtitles cut at the start and at the end of the stretch.
pub open spec fn cut_subtitle_range(
    clips: Seq<SubtitleClipView>,
    next_id: int,
    start: int,
    end: int,
) -> crate::razor::SubtitleCut {
    let a = cut_all_subtitles(clips, next_id, start);
    cut_all_subtitles(a.clips, a.next_id, end)
}

/// The first `n` rows of subtitles cut at the start and at the end of the stretch.
pub open spec fn cut_subtitle_tracks(
    tracks: Seq<SubtitleTrackView>,
    n: int,
    next_id: int,
    start: int,
    end: int,
) -> SubtitleTrackCuts
    decreases n,
{
    if n <= 0 {
        SubtitleTrackCuts { tracks, next_id }
    } else {
        let before = cut_subtitle_tracks(tracks, n - 1, next_id, start, end);
        let cut = cut_subtitle_range(tracks[n - 1].clips, before.next_id, start, end);
        SubtitleTrackCuts {
            tracks: before.tracks.update(
                n - 1,
                SubtitleTrackView { clips: cut.clips, ..tracks[n - 1] },
            ),
            next_id: cut.next_id,
        }
    }
}

pub proof fn lemma_cut_subtitle_tracks(
    tracks: Seq<SubtitleTrackView>,
    n: int,
    next_id: int,
    start: int,
    end: int,
)
    requires
        0 <= n <= tracks.len(),
    ensures
        cut_subtitle_tracks(tracks, n, next_id, start, end).tracks.len() == tracks.len(),
        forall|i: int|
            n <= i < tracks.len() ==> #[trigger] cut_subtitle_tracks(
                tracks,
                n,
                next_id,
                start,
                end,
            ).tracks[i] == tracks[i],
    decreases n,
{
    if n > 0 {
        lemma_cut_subtitle_tracks(tracks, n - 1, next_id, start, end);
    }
}

/// How many subtitles there are.
pub open spec fn subtitle_count(tracks: Seq<SubtitleTrackView>) -> int
    decreases tracks.len(),
{
    if tracks.len() == 0 {
        0
    } else {
        subtitle_count(tracks.drop_last()) + tracks.last().clips.len()
    }
}

impl TimelineView {
    /// Whether the part of the file that each clip shows ends at a time that can be
    /// written down.
    pub open spec fn sources_fit(self) -> bool {
        forall|i: int| 0 <= i < self.lane_count() ==> sources_fit(#[trigger] self.lane(i))
    }

    /// Whether there are ids enough to cut everything at two times.
    pub open spec fn ids_left(self, next_id: int) -> bool {
        next_id + 6 * self.all_clips().len() + 6 * subtitle_count(self.subtitle_tracks) + 2
            <= u64::MAX
    }

    /// The timeline with everything cut at the start and at the end of the stretch.
    #[verifier::opaque]
    pub open spec fn cut_at_both(self, next_id: int, start: int, end: int) -> (TimelineView, int) {
        let lanes = cut_lanes(self.lanes(), self.lane_count() as int, next_id, start, end);
        let subtitles = cut_subtitle_tracks(
            self.subtitle_tracks,
            self.subtitle_tracks.len() as int,
            lanes.next_id,
            start,
            end,
        );
        (
            TimelineView {
                subtitle_tracks: subtitles.tracks,
                ..self.with_lanes(lanes.lanes)
            },
            subtitles.next_id,
        )
    }
}

fn cut_range_of(lane: &mut Vec<Clip>, next_id: &mut u64, start: Duration, end: Duration)
    requires
        sources_fit(views(old(lane)@)),
        *old(next_id) + 6 * old(lane)@.len() + 2 <= u64::MAX,
    ensures
        ({
            let cut = cut_range(views(old(lane)@), *old(next_id) as int, start@, end@);
            &&& views(final(lane)@) == cut.clips
            &&& *final(next_id) == cut.next_id
        }),
        *final(next_id) <= *old(next_id) + 6 * old(lane)@.len(),
{
    proof {
        lemma_cut_all_size(views(lane@), *next_id as int, start@);
    }
    razor_all_clips_at(lane, next_id, start);
    proof {
        lemma_cut_all_size(views(lane@), *next_id as int, end@);
    }
    razor_all_clips_at(lane, next_id, end);
}

fn cut_subtitle_range_of(
    clips: &mut Vec<SubtitleClip>,
    next_id: &mut u64,
    start: Duration,
    end: Duration,
)
    requires
        *old(next_id) + 6 * old(clips)@.len() + 2 <= u64::MAX,
    ensures
        ({
            let cut = cut_subtitle_range(views(old(clips)@), *old(next_id) as int, start@, end@);
            &&& views(final(clips)@) == cut.clips
            &&& *final(next_id) == cut.next_id
        }),
        *final(next_id) <= *old(next_id) + 6 * old(clips)@.len(),
{
    proof {
        lemma_cut_all_subtitles_size(views(clips@), *next_id as int, start@);
    }
    razor_all_subtitles_at(clips, next_id, start);
    proof {
        lemma_cut_all_subtitles_size(views(clips@), *next_id as int, end@);
    }
    razor_all_subtitles_at(clips, next_id, end);
}

proof fn lemma_flatten_take_len(lanes: Seq<Lane>, n: int)
    requires
        0 <= n <= lanes.len(),
    ensures
        lanes.take(n).flatten().len() <= lanes.flatten().len(),
    decreases lanes.len() - n,
{
    if n < lanes.len() {
        lemma_flatten_step(lanes, n);
        lemma_flatten_take_len(lanes, n + 1);
    } else {
        assert(lanes.take(n) =~= lanes);
    }
}

proof fn lemma_subtitle_count_take(tracks: Seq<SubtitleTrackView>, n: int)
    requires
        0 <= n <= tracks.len(),
    ensures
        0 <= subtitle_count(tracks.take(n)) <= subtitle_count(tracks),
        n < tracks.len() ==> subtitle_count(tracks.take(n + 1)) == subtitle_count(tracks.take(n))
            + tracks[n].clips.len(),
    decreases tracks.len(),
{
    if n < tracks.len() {
        lemma_subtitle_count_take(tracks.drop_last(), n);
        assert(tracks.drop_last().take(n) =~= tracks.take(n));
        assert(tracks.take(n + 1).drop_last() =~= tracks.take(n));
    } else {
        assert(tracks.take(n) =~= tracks);
        if n > 0 {
            lemma_subtitle_count_take(tracks.drop_last(), n - 1);
        }
    }
}

impl Timeline {
    fn cut_lanes_at_both(&mut self, next_id: &mut u64, start: Duration, end: Duration)
        requires
            old(self)@.lane_count() <= usize::MAX,
            old(self)@.sources_fit(),
            *old(next_id) + 6 * old(self)@.all_clips().len() + 2 <= u64::MAX,
        ensures
            ({
                let cuts = cut_lanes(
                    old(self)@.lanes(),
                    old(self)@.lane_count() as int,
                    *old(next_id) as int,
                    start@,
                    end@,
                );
                &&& final(self)@ == old(self)@.with_lanes(cuts.lanes)
                &&& *final(next_id) == cuts.next_id
            }),
            *final(next_id) <= *old(next_id) + 6 * old(self)@.all_clips().len(),
    {
        let ghost base = self@;
        let ghost lanes = base.lanes();
        let ghost id0 = *next_id as int;
        let n: usize = self.lane_count();
        let mut i: usize = 0;
        proof {
            lemma_lanes_put_back(base);
            assert(lanes.take(0).flatten() =~= Seq::<ClipView>::empty());
        }
        while i < n
            invariant
                i <= n,
                n == base.lane_count(),
                lanes == base.lanes(),
                base.sources_fit(),
                id0 + 6 * lanes.flatten().len() + 2 <= u64::MAX,
                self@ == base.with_lanes(cut_lanes(lanes, i as int, id0, start@, end@).lanes),
                *next_id == cut_lanes(lanes, i as int, id0, start@, end@).next_id,
                *next_id <= id0 + 6 * lanes.take(i as int).flatten().len(),
            decreases n - i,
        {
            let ghost now = cut_lanes(lanes, i as int, id0, start@, end@).lanes;
            proof {
                lemma_cut_lanes(lanes, i as int, id0, start@, end@);
                lemma_lanes_put(base, now);
                assert(now[i as int] == lanes[i as int]);
                assert(sources_fit(base.lane(i as int)));
                lemma_flatten_step(lanes, i as int);
                lemma_flatten_take_len(lanes, i + 1);
            }
            let lane = self.lane_mut(i);
            cut_range_of(lane, next_id, start, end);
            i = i + 1;
        }
        assert(lanes.take(i as int) =~= lanes);
    }

    fn cut_subtitles_at_both(&mut self, next_id: &mut u64, start: Duration, end: Duration)
        requires
            *old(next_id) + 6 * subtitle_count(old(self)@.subtitle_tracks) + 2 <= u64::MAX,
        ensures
            ({
                let cuts = cut_subtitle_tracks(
                    old(self)@.subtitle_tracks,
                    old(self)@.subtitle_tracks.len() as int,
                    *old(next_id) as int,
                    start@,
                    end@,
                );
                &&& final(self)@ == (TimelineView { subtitle_tracks: cuts.tracks, ..old(self)@ })
                &&& *final(next_id) == cuts.next_id
            }),
    {
        let ghost base = self@;
        let ghost tracks = base.subtitle_tracks;
        let ghost id0 = *next_id as int;
        let mut i: usize = 0;
        while i < self.subtitle_tracks.len()
            invariant
                i <= self.subtitle_tracks.len(),
                self.subtitle_tracks.len() == tracks.len(),
                tracks == base.subtitle_tracks,
                id0 + 6 * subtitle_count(tracks) + 2 <= u64::MAX,
                self@ == (TimelineView {
                    subtitle_tracks: cut_subtitle_tracks(
                        tracks,
                        i as int,
                        id0,
                        start@,
                        end@,
                    ).tracks,
                    ..base
                }),
                *next_id == cut_subtitle_tracks(tracks, i as int, id0, start@, end@).next_id,
                *next_id <= id0 + 6 * subtitle_count(tracks.take(i as int)),
            decreases self.subtitle_tracks.len() - i,
        {
            let ghost now = self.subtitle_tracks@;
            proof {
                lemma_cut_subtitle_tracks(tracks, i as int, id0, start@, end@);
                lemma_subtitle_count_take(tracks, i as int);
                lemma_subtitle_count_take(tracks, i + 1);
                assert(views(now)[i as int] == tracks[i as int]);
            }
            cut_subtitle_range_of(&mut self.subtitle_tracks[i].clips, next_id, start, end);
            assert(self.subtitle_tracks@ =~= now.update(i as int, self.subtitle_tracks@[i as int]));
            i = i + 1;
        }
    }
}

// ---------------------------------------------------------------------------
// Closing the gap
// ---------------------------------------------------------------------------

/// Whether the clip lies in the stretch.
pub open spec fn lies_in(c: ClipView, start: int, end: int) -> bool {
    c.start >= start && c.end() <= end
}

/// The clip, started earlier by the length of the stretch if it starts behind it.
pub open spec fn pulled(c: ClipView, start: int, end: int) -> ClipView {
    if c.start >= end {
        ClipView { start: c.start - (end - start), ..c }
    } else {
        c
    }
}

/// The row without the clips in the stretch, and with those behind it pulled to its
/// start.
pub open spec fn lane_closed(lane: Lane, start: int, end: int) -> Lane {
    by_start(
        lane.filter(|c: ClipView| !lies_in(c, start, end)).map_values(
            |c: ClipView| pulled(c, start, end),
        ),
    )
}

/// Whether closing the gap changes the row.
pub open spec fn lane_closes(lane: Lane, start: int, end: int) -> bool {
    some(lane, |c: ClipView| lies_in(c, start, end) || c.start >= end)
}

/// Whether the subtitle lies in the stretch.
pub open spec fn subtitle_lies_in(c: SubtitleClipView, start: int, end: int) -> bool {
    c.start >= start && c.end() <= end
}

/// The subtitle, started earlier by the length of the stretch if it starts behind it.
pub open spec fn subtitle_pulled(c: SubtitleClipView, start: int, end: int) -> SubtitleClipView {
    if c.start >= end {
        SubtitleClipView { start: c.start - (end - start), ..c }
    } else {
        c
    }
}

/// The subtitles without those in the stretch, and with those behind it pulled to
/// its start.
pub open spec fn subtitles_closed(clips: Seq<SubtitleClipView>, start: int, end: int) -> Seq<
    SubtitleClipView,
> {
    subtitles_by_start(
        clips.filter(|c: SubtitleClipView| !subtitle_lies_in(c, start, end)).map_values(
            |c: SubtitleClipView| subtitle_pulled(c, start, end),
        ),
    )
}

/// Whether closing the gap changes the subtitles.
pub open spec fn subtitles_close(clips: Seq<SubtitleClipView>, start: int, end: int) -> bool {
    some(clips, |c: SubtitleClipView| subtitle_lies_in(c, start, end) || c.start >= end)
}

pub proof fn lemma_filter_keeps_all<T>(s: Seq<T>, p: spec_fn(T) -> bool)
    ensures
        s.filter(p).len() == s.len() <==> forall|i: int| 0 <= i < s.len() ==> p(#[trigger] s[i]),
        (forall|i: int| 0 <= i < s.len() ==> p(#[trigger] s[i])) ==> s.filter(p) == s,
        forall|x: T| #[trigger] s.filter(p).contains(x) <==> s.contains(x) && p(x),
    decreases s.len(),
{
    reveal(Seq::filter);
    lemma_filter_len(s, p);
    if s.len() > 0 {
        let front = s.drop_last();
        lemma_filter_keeps_all(front, p);
        lemma_filter_len(front, p);
        assert(forall|i: int| 0 <= i < front.len() ==> front[i] == s[i]);
        if forall|i: int| 0 <= i < s.len() ==> p(#[trigger] s[i]) {
            assert forall|i: int| 0 <= i < front.len() implies p(#[trigger] front[i]) by {
                assert(p(s[i]));
            }
            assert(p(s[s.len() - 1]));
            assert(s.filter(p) =~= s);
        }
        if s.filter(p).len() == s.len() {
            assert forall|i: int| 0 <= i < s.len() implies p(#[trigger] s[i]) by {
                if i < front.len() {
                    assert(p(front[i]));
                }
            }
        }
        assert forall|x: T| #[trigger] s.filter(p).contains(x) <==> s.contains(x) && p(x) by {
            let f = s.filter(p);
            assert(s =~= front.push(s.last()));
            if f.contains(x) {
                let k = f.index_of(x);
                if p(s.last()) && k == f.len() - 1 {
                    assert(x == s.last());
                    assert(s[s.len() - 1] == x);
                } else {
                    assert(front.filter(p)[k] == x);
                    assert(front.filter(p).contains(x));
                    assert(s[front.index_of(x)] == x);
                }
            }
            if s.contains(x) && p(x) {
                let k = s.index_of(x);
                if k < front.len() {
                    assert(front[k] == x);
                    assert(front.contains(x));
                    assert(front.filter(p).contains(x));
                    let m = front.filter(p).index_of(x);
                    assert(front.filter(p)[m] == x);
                    assert(f[m] == x);
                } else {
                    assert(f[f.len() - 1] == x);
                }
            }
        }
    } else {
        assert(s.filter(p) =~= s);
    }
}

/// Removes the clips in the stretch and pulls those behind it to its start. Says
/// whether there were any.
fn close_lane(lane: &mut Vec<Clip>, start: Duration, end: Duration) -> (changed: bool)
    requires
        start@ < end@,
    ensures
        views(final(lane)@) == lane_closed(views(old(lane)@), start@, end@),
        changed == lane_closes(views(old(lane)@), start@, end@),
{
    let ghost before = views(lane@);
    let delta = end.minus(start);
    let before_len: usize = lane.len();
    let ghost p = |c: Clip| !lies_in(c@, start@, end@);
    let ghost q = |c: ClipView| !lies_in(c, start@, end@);
    let ghost raw = lane@;
    let keep = |c: &Clip| -> (yes: bool)
        ensures
            yes == !lies_in(c@, start@, end@),
    {
        !(c.start.nanos >= start.nanos && c.start.nanos <= end.nanos && c.duration.nanos
            <= end.nanos - c.start.nanos)
    };
    retain_by(lane, keep, Ghost(p));
    let mut changed = lane.len() != before_len;
    let ghost kept = views(lane@);
    let ghost behind = |c: ClipView| lies_in(c, start@, end@) || c.start >= end@;
    proof {
        lemma_filter_views(raw, p, q);
        lemma_filter_keeps_all(before, q);
        if changed {
            let k = choose|k: int| 0 <= k < before.len() && !q(#[trigger] before[k]);
            assert(behind(before[k]));
        }
    }
    let mut i: usize = 0;
    while i < lane.len()
        invariant
            i <= lane.len(),
            lane.len() == kept.len(),
            delta@ == end@ - start@,
            start@ < end@,
            kept == before.filter(q),
            q == (|c: ClipView| !lies_in(c, start@, end@)),
            behind == (|c: ClipView| lies_in(c, start@, end@) || c.start >= end@),
            forall|x: ClipView| #[trigger] kept.contains(x) <==> before.contains(x) && q(x),
            forall|j: int|
                0 <= j < i ==> #[trigger] views(lane@)[j] == pulled(kept[j], start@, end@),
            forall|j: int| i <= j < kept.len() ==> #[trigger] views(lane@)[j] == kept[j],
            changed ==> some(before, behind),
            !changed ==> kept == before && forall|j: int| 0 <= j < i ==> !behind(#[trigger] kept[j]),
        decreases lane.len() - i,
    {
        assert(views(lane@)[i as int] == kept[i as int]);
        if lane[i].start.nanos >= end.nanos {
            let ghost mid = lane@;
            let pulled_start = lane[i].start.minus(delta);
            lane[i].start = pulled_start;
            assert(lane@ =~= mid.update(i as int, lane@[i as int]));
            proof {
                let c = kept[i as int];
                assert(kept.contains(c));
                let k = before.index_of(c);
                assert(behind(before[k]));
            }
            changed = true;
        } else {
            proof {
                let c = kept[i as int];
                assert(kept.contains(c));
            }
        }
        i = i + 1;
    }
    assert(views(lane@) =~= kept.map_values(|c: ClipView| pulled(c, start@, end@)));
    sort_clips(lane);
    changed
}

/// Removes the subtitles in the stretch and pulls those behind it to its start. Says
/// whether there were any.
fn close_subtitles(clips: &mut Vec<SubtitleClip>, start: Duration, end: Duration) -> (changed: bool)
    requires
        start@ < end@,
    ensures
        views(final(clips)@) == subtitles_closed(views(old(clips)@), start@, end@),
        changed == subtitles_close(views(old(clips)@), start@, end@),
{
    let ghost before = views(clips@);
    let delta = end.minus(start);
    let before_len: usize = clips.len();
    let ghost p = |c: SubtitleClip| !subtitle_lies_in(c@, start@, end@);
    let ghost q = |c: SubtitleClipView| !subtitle_lies_in(c, start@, end@);
    let ghost raw = clips@;
    let keep = |c: &SubtitleClip| -> (yes: bool)
        ensures
            yes == !subtitle_lies_in(c@, start@, end@),
    {
        !(c.start.nanos >= start.nanos && c.start.nanos <= end.nanos && c.duration.nanos
            <= end.nanos - c.start.nanos)
    };
    retain_by(clips, keep, Ghost(p));
    let mut changed = clips.len() != before_len;
    let ghost kept = views(clips@);
    let ghost behind = |c: SubtitleClipView| subtitle_lies_in(c, start@, end@) || c.start >= end@;
    proof {
        lemma_filter_views(raw, p, q);
        lemma_filter_keeps_all(before, q);
        if changed {
            let k = choose|k: int| 0 <= k < before.len() && !q(#[trigger] before[k]);
            assert(behind(before[k]));
        }
    }
    let mut i: usize = 0;
    while i < clips.len()
        invariant
            i <= clips.len(),
            clips.len() == kept.len(),
            delta@ == end@ - start@,
            start@ < end@,
            kept == before.filter(q),
            q == (|c: SubtitleClipView| !subtitle_lies_in(c, start@, end@)),
            behind == (|c: SubtitleClipView|
                subtitle_lies_in(c, start@, end@) || c.start >= end@),
            forall|x: SubtitleClipView| #[trigger]
                kept.contains(x) <==> before.contains(x) && q(x),
            forall|j: int|
                0 <= j < i ==> #[trigger] views(clips@)[j] == subtitle_pulled(
                    kept[j],
                    start@,
                    end@,
                ),
            forall|j: int| i <= j < kept.len() ==> #[trigger] views(clips@)[j] == kept[j],
            changed ==> some(before, behind),
            !changed ==> kept == before && forall|j: int| 0 <= j < i ==> !behind(#[trigger] kept[j]),
        decreases clips.len() - i,
    {
        assert(views(clips@)[i as int] == kept[i as int]);
        if clips[i].start.nanos >= end.nanos {
            let ghost mid = clips@;
            let pulled_start = clips[i].start.minus(delta);
            clips[i].start = pulled_start;
            assert(clips@ =~= mid.update(i as int, clips@[i as int]));
            proof {
                let c = kept[i as int];
                assert(kept.contains(c));
                let k = before.index_of(c);
                assert(behind(before[k]));
            }
            changed = true;
        } else {
            proof {
                let c = kept[i as int];
                assert(kept.contains(c));
            }
        }
        i = i + 1;
    }
    assert(views(clips@) =~= kept.map_values(
        |c: SubtitleClipView| subtitle_pulled(c, start@, end@),
    ));
    sort_subtitles(clips);
    changed
}

impl TimelineView {
    /// The timeline without the stretch; nothing may reach over its ends.
    #[verifier::opaque]
    pub open spec fn closed(self, start: int, end: int) -> TimelineView {
        TimelineView {
            subtitle_tracks: Seq::new(
                self.subtitle_tracks.len(),
                |k: int|
                    SubtitleTrackView {
                        clips: subtitles_closed(self.subtitle_tracks[k].clips, start, end),
                        ..self.subtitle_tracks[k]
                    },
            ),
            ..self.with_lanes(
                Seq::new(self.lane_count(), |i: int| lane_closed(self.lane(i), start, end)),
            )
        }
    }

    /// Whether anything lies in the stretch or behind it.
    #[verifier::opaque]
    pub open spec fn closes(self, start: int, end: int) -> bool {
        ||| exists|i: int|
            0 <= i < self.lane_count() && lane_closes(#[trigger] self.lane(i), start, end)
        ||| exists|k: int|
            0 <= k < self.subtitle_tracks.len() && subtitles_close(
                (#[trigger] self.subtitle_tracks[k]).clips,
                start,
                end,
            )
    }
}

impl Timeline {
    fn close(&mut self, start: Duration, end: Duration) -> (changed: bool)
        requires
            old(self)@.lane_count() <= usize::MAX,
            start@ < end@,
        ensures
            final(self)@ == old(self)@.closed(start@, end@),
            changed == old(self)@.closes(start@, end@),
    {
        reveal(TimelineView::closed);
        reveal(TimelineView::closes);
        let ghost base = self@;
        let n: usize = self.lane_count();
        let ghost mut now = base.lanes();
        let mut changed = false;
        let mut i: usize = 0;
        proof {
            lemma_lanes_put_back(base);
        }
        while i < n
            invariant
                i <= n,
                n == base.lane_count(),
                now.len() == n,
                start@ < end@,
                self@ == base.with_lanes(now),
                forall|j: int|
                    0 <= j < i ==> #[trigger] now[j] == lane_closed(base.lane(j), start@, end@),
                forall|j: int| i <= j < n ==> #[trigger] now[j] == base.lane(j),
                changed == exists|j: int|
                    0 <= j < i && lane_closes(#[trigger] base.lane(j), start@, end@),
            decreases n - i,
        {
            proof {
                lemma_lanes_put(base, now);
            }
            let lane = self.lane_mut(i);
            assert(views(lane@) == base.lane(i as int));
            if close_lane(lane, start, end) {
                assert(lane_closes(base.lane(i as int), start@, end@));
                changed = true;
            }
            proof {
                now = now.update(i as int, views(lane@));
            }
            i = i + 1;
        }
        assert(now =~= Seq::new(
            base.lane_count(),
            |i: int| lane_closed(base.lane(i), start@, end@),
        ));
        let ghost mid = self@;
        let ghost tracks = base.subtitle_tracks;
        assert(mid.subtitle_tracks == tracks);
        let ghost lanes_changed = changed;
        let mut k: usize = 0;
        while k < self.subtitle_tracks.len()
            invariant
                k <= self.subtitle_tracks.len(),
                self.subtitle_tracks.len() == tracks.len(),
                start@ < end@,
                self@ == (TimelineView { subtitle_tracks: self@.subtitle_tracks, ..mid }),
                forall|j: int|
                    0 <= j < k ==> #[trigger] self@.subtitle_tracks[j] == (SubtitleTrackView {
                        clips: subtitles_closed(tracks[j].clips, start@, end@),
                        ..tracks[j]
                    }),
                forall|j: int|
                    k <= j < tracks.len() ==> #[trigger] self@.subtitle_tracks[j] == tracks[j],
                changed == (lanes_changed || exists|j: int|
                    0 <= j < k && subtitles_close((#[trigger] tracks[j]).clips, start@, end@)),
            decreases self.subtitle_tracks.len() - k,
        {
            let ghost before = self.subtitle_tracks@;
            assert(self@.subtitle_tracks[k as int] == tracks[k as int]);
            if close_subtitles(&mut self.subtitle_tracks[k].clips, start, end) {
                assert(subtitles_close(tracks[k as int].clips, start@, end@));
                changed = true;
            }
            assert(self.subtitle_tracks@ =~= before.update(
                k as int,
                self.subtitle_tracks@[k as int],
            ));
            k = k + 1;
        }
        assert(self@.subtitle_tracks =~= base.closed(start@, end@).subtitle_tracks);
        changed
    }

    /// Cuts everything at both ends of the stretch, removes what lies in it and pulls
    /// what lies behind it to its start. Says whether there was anything.
    fn ripple(&mut self, next_id: &mut u64, start: Duration, end: Duration) -> (changed: bool)
        requires
            old(self)@.lane_count() <= usize::MAX,
            old(self)@.sources_fit(),
            old(self)@.ids_left(*old(next_id) as int),
            start@ < end@,
        ensures
            ({
                let cut = old(self)@.cut_at_both(*old(next_id) as int, start@, end@);
                &&& final(self)@ == cut.0.closed(start@, end@)
                &&& *final(next_id) == cut.1
                &&& changed == cut.0.closes(start@, end@)
                &&& final(self)@.lane_count() == old(self)@.lane_count()
            }),
    {
        proof {
            reveal(TimelineView::cut_at_both);
            reveal(TimelineView::closed);
            lemma_subtitle_count_take(self@.subtitle_tracks, 0);
            lemma_cut_lanes(
                self@.lanes(),
                self@.lane_count() as int,
                *next_id as int,
                start@,
                end@,
            );
        }
        self.cut_lanes_at_both(next_id, start, end);
        self.cut_subtitles_at_both(next_id, start, end);
        self.close(start, end)
    }
}

// ---------------------------------------------------------------------------
// The whole edit
// ---------------------------------------------------------------------------

impl TimelineView {
    /// Whether there is a clip with the id.
    pub open spec fn has_clip(self, id: u64) -> bool {
        exists|i: int, k: int|
            0 <= i < self.lane_count() && 0 <= k < self.lane(i).len() && (#[trigger] self.lane(
                i,
            )[k]).id == id
    }

    /// Whether there is a subtitle with the id.
    pub open spec fn has_subtitle(self, id: u64) -> bool {
        exists|i: int, k: int|
            0 <= i < self.subtitle_tracks.len() && 0 <= k < self.subtitle_tracks[i].clips.len() && (
            #[trigger] self.subtitle_tracks[i].clips[k]).id == id
    }
}

impl SelectionView {
    /// The selection without what is not on the timeline.
    #[verifier::opaque]
    pub open spec fn pruned(self, t: TimelineView) -> SelectionView {
        let clips = self.selected_clip_ids.filter(|id: u64| t.has_clip(id));
        let subtitles = self.selected_subtitle_ids.filter(|id: u64| t.has_subtitle(id));
        SelectionView {
            selected_clip_ids: clips,
            selected_clip_id: if self.selected_clip_id is Some && !t.has_clip(
                self.selected_clip_id->0,
            ) {
                last_id(clips)
            } else {
                self.selected_clip_id
            },
            selected_subtitle_ids: subtitles,
            selected_subtitle_id: if self.selected_subtitle_id is Some && !t.has_subtitle(
                self.selected_subtitle_id->0,
            ) {
                last_id(subtitles)
            } else {
                self.selected_subtitle_id
            },
        }
    }
}

/// Where the playhead stands after a stretch was taken out.
pub open spec fn playhead_after(playhead: int, start: int, end: int) -> int {
    if playhead >= end {
        playhead - (end - start)
    } else if playhead > start {
        start
    } else {
        playhead
    }
}

impl TimelineView {
    /// The timeline with the playhead set where the stretch was taken out.
    pub open spec fn settled(self, changed: bool, start: int, end: int) -> TimelineView {
        TimelineView {
            playhead: if changed {
                playhead_after(self.playhead, start, end)
            } else {
                self.playhead
            },
            ..self
        }
    }
}

impl StateView {
    /// Whether the edit finds anything to take out or to pull.
    pub open spec fn ripple_changes(self, start: int, end: int) -> bool {
        start < end && self.timeline.cut_at_both(self.next_clip_id as int, start, end).0.closes(
            start,
            end,
        )
    }

    /// The state after the stretch was taken out of every track.
    pub open spec fn rippled(self, start: int, end: int) -> StateView {
        if end <= start {
            self
        } else {
            let s = self.saved(false);
            let cut = s.timeline.cut_at_both(s.next_clip_id as int, start, end);
            let changed = cut.0.closes(start, end);
            let t = cut.0.closed(start, end);
            StateView {
                timeline: t.settled(changed, start, end),
                next_clip_id: cut.1 as u64,
                selection: if changed {
                    s.selection.pruned(t)
                } else {
                    s.selection
                },
                ..s
            }
        }
    }
}

impl Timeline {
    /// Whether there is a clip with the id.
    pub fn has_clip(&self, id: u64) -> (yes: bool)
        requires
            self@.lane_count() <= usize::MAX,
        ensures
            yes == self@.has_clip(id),
    {
        let n: usize = self.lane_count();
        let mut i: usize = 0;
        while i < n
            invariant
                i <= n,
                n == self@.lane_count(),
                forall|j: int, k: int|
                    0 <= j < i && 0 <= k < self@.lane(j).len() ==> (#[trigger] self@.lane(
                        j,
                    )[k]).id != id,
            decreases n - i,
        {
            let lane = self.lane(i);
            let mut k: usize = 0;
            while k < lane.len()
                invariant
                    k <= lane.len(),
                    i < n,
                    n == self@.lane_count(),
                    views(lane@) == self@.lane(i as int),
                    forall|m: int|
                        0 <= m < k ==> (#[trigger] self@.lane(i as int)[m]).id != id,
                decreases lane.len() - k,
            {
                assert(self@.lane(i as int)[k as int] == lane@[k as int]@);
                if lane[k].id == id {
                    return true;
                }
                k = k + 1;
            }
            i = i + 1;
        }
        false
    }

    /// Whether there is a subtitle with the id.
    pub fn has_subtitle(&self, id: u64) -> (yes: bool)
        ensures
            yes == self@.has_subtitle(id),
    {
        let mut i: usize = 0;
        while i < self.subtitle_tracks.len()
            invariant
                i <= self.subtitle_tracks.len(),
                forall|j: int, k: int|
                    0 <= j < i && 0 <= k < self@.subtitle_tracks[j].clips.len() ==> (
                    #[trigger] self@.subtitle_tracks[j].clips[k]).id != id,
            decreases self.subtitle_tracks.len() - i,
        {
            let clips = &self.subtitle_tracks[i].clips;
            let mut k: usize = 0;
            while k < clips.len()
                invariant
                    k <= clips.len(),
                    i < self.subtitle_tracks.len(),
                    views(clips@) == self@.subtitle_tracks[i as int].clips,
                    forall|m: int|
                        0 <= m < k ==> (#[trigger] self@.subtitle_tracks[i as int].clips[m]).id
                            != id,
                decreases clips.len() - k,
            {
                assert(self@.subtitle_tracks[i as int].clips[k as int] == clips@[k as int]@);
                if clips[k].id == id {
                    return true;
                }
                k = k + 1;
            }
            i = i + 1;
        }
        false
    }
}

impl Selection {
    /// Drops what is not on the timeline.
    pub fn prune(&mut self, t: &Timeline)
        requires
            t@.lane_count() <= usize::MAX,
        ensures
            final(self)@ == old(self)@.pruned(t@),
    {
        reveal(SelectionView::pruned);
        let keep_clip = |id: &u64| -> (yes: bool)
            ensures
                yes == t@.has_clip(*id),
        {
            t.has_clip(*id)
        };
        retain_by(&mut self.selected_clip_ids, keep_clip, Ghost(|id: u64| t@.has_clip(id)));
        if let Some(id) = self.selected_clip_id {
            if !t.has_clip(id) {
                self.selected_clip_id = last_of(&self.selected_clip_ids);
            }
        }
        let keep_subtitle = |id: &u64| -> (yes: bool)
            ensures
                yes == t@.has_subtitle(*id),
        {
            t.has_subtitle(*id)
        };
        retain_by(
            &mut self.selected_subtitle_ids,
            keep_subtitle,
            Ghost(|id: u64| t@.has_subtitle(id)),
        );
        if let Some(id) = self.selected_subtitle_id {
            if !t.has_subtitle(id) {
                self.selected_subtitle_id = last_of(&self.selected_subtitle_ids);
            }
        }
    }
}

impl Selection {
    fn prune_if(&mut self, changed: bool, t: &Timeline)
        requires
            t@.lane_count() <= usize::MAX,
        ensures
            final(self)@ == if changed {
                old(self)@.pruned(t@)
            } else {
                old(self)@
            },
    {
        if changed {
            self.prune(t);
        }
    }
}

impl GlobalState {
    /// Takes a stretch of time out of every track: what lies in it is removed, and what
    /// lies behind it moves to its start. Says whether there was anything.
    pub fn ripple_delete_time_range_all_tracks(&mut self, start: Duration, end: Duration) -> (changed:
        bool)
        requires
            old(self)@.timeline.lane_count() <= usize::MAX,
            old(self)@.timeline.sources_fit(),
            old(self)@.timeline.ids_left(old(self)@.next_clip_id as int),
        ensures
            changed == old(self)@.ripple_changes(start@, end@),
            final(self)@ == old(self)@.rippled(start@, end@),
    {
        if end.nanos <= start.nanos {
            return false;
        }
        self.save_for_undo();
        let changed = self.timeline.ripple(&mut self.next_clip_id, start, end);
        self.selection.prune_if(changed, &self.timeline);
        self.timeline.move_playhead_after(changed, start, end);
        changed
    }
}

impl Timeline {
    fn move_playhead_after(&mut self, changed: bool, start: Duration, end: Duration)
        requires
            start@ < end@,
        ensures
            final(self)@ == old(self)@.settled(changed, start@, end@),
    {
        if changed {
            if self.playhead.nanos >= end.nanos {
                self.playhead = self.playhead.minus(end.minus(start));
            } else if self.playhead.nanos > start.nanos {
                self.playhead = start;
            }
        }
    }
}

/// Closing a stretch at whose ends everything was cut keeps clips in order and apart: what
/// was before it stays, and what was behind it comes earlier by its length.
pub proof fn closing_keeps_clips_apart(a: ClipView, b: ClipView, start: int, end: int)
    requires
        start <= end,
        a.duration >= 0,
        b.duration >= 0,
        a.end() <= start || a.start >= end,
        b.end() <= start || b.start >= end,
        a.end() <= b.start,
    ensures
        pulled(a, start, end).end() <= pulled(b, start, end).start,
        a.end() <= start && a.start < end ==> pulled(a, start, end) == a,
        b.start >= end ==> pulled(b, start, end).start == b.start - (end - start)
            && pulled(b, start, end).start >= start,
{
}

/// What is left of a selection after a stretch was taken out is on the timeline.
pub proof fn pruned_selection_exists(s: SelectionView, t: TimelineView, id: u64)
    ensures
        s.pruned(t).selected_clip_ids.contains(id) ==> t.has_clip(id),
        s.pruned(t).selected_clip_id == Some(id) ==> t.has_clip(id),
        s.pruned(t).selected_subtitle_ids.contains(id) ==> t.has_subtitle(id),
        s.pruned(t).selected_subtitle_id == Some(id) ==> t.has_subtitle(id),
{
    broadcast use vstd::seq_lib::group_filter_ensures;

    reveal(SelectionView::pruned);
    let p = |id: u64| t.has_clip(id);
    let q = |id: u64| t.has_subtitle(id);
    let clips = s.selected_clip_ids.filter(p);
    let subtitles = s.selected_subtitle_ids.filter(q);
    if clips.contains(id) {
        let i = choose|i: int| 0 <= i < clips.len() && clips[i] == id;
        assert(p(clips[i]));
    }
    if clips.len() > 0 {
        assert(p(clips[clips.len() - 1]));
    }
    if subtitles.contains(id) {
        let i = choose|i: int| 0 <= i < subtitles.len() && subtitles[i] == id;
        assert(q(subtitles[i]));
    }
    if subtitles.len() > 0 {
        assert(q(subtitles[subtitles.len() - 1]));
    }
}

} // verus!
