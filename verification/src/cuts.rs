//! Cutting at the playhead.
use crate::clip::{Clip, ClipView};
use crate::copying::views;
use crate::errors::GlobalStateError;
use crate::lanes::{lemma_lanes_put, lemma_lanes_put_back, Lane};
use crate::lists::{first, lemma_first_views, position_by};
use crate::razor::{
    cut_clip, cut_first, cut_first_subtitle, first_straddler, is_inside, perform_razor,
    perform_razor_for_clip_id_with_groups, perform_subtitle_razor, sources_fit, straddles, Cut,
};
use crate::repair::repairing_changes_only_groups;
use crate::state::{GlobalState, Selection, SelectionView, StateView};
use crate::text::owned;
use crate::time::{Duration, MAX_NANOS};
use crate::tracks::{Timeline, TimelineView};
use vstd::prelude::*;

verus! {

broadcast use crate::copying::group_views;

/// A timeline after a cut, the next free id, and the id of the piece behind the cut
/// where there was one.
pub ghost struct TimelineCut {
    pub timeline: TimelineView,
    pub next_id: int,
    pub right_id: Option<u64>,
}

/// Rows after cuts, and the next free id.
pub ghost struct LinkedCuts {
    pub lanes: Seq<Lane>,
    pub next_id: int,
}

/// The place of the first clip of the group that has `t` inside.
pub open spec fn linked_straddler(lane: Lane, group: u64, t: int) -> int {
    first(lane, |c: ClipView| c.link_group_id == Some(group) && straddles(c, t))
}

/// Cuts the first clip of the group that has `t` inside.
pub open spec fn linked_cut(
    lane: Lane,
    next_id: int,
    t: int,
    group: u64,
    right_group: Option<u64>,
) -> Cut {
    let at = linked_straddler(lane, group, t);
    if at < lane.len() {
        cut_clip(lane, next_id, lane[at].id, t, Some(group), right_group)
    } else {
        Cut { clips: lane, next_id, right_id: None }
    }
}

/// Cuts the first clip of the group that has `t` inside in each of the rows from the
/// second to the `n`th.
pub open spec fn linked_cuts(
    lanes: Seq<Lane>,
    n: int,
    next_id: int,
    t: int,
    group: u64,
    right_group: Option<u64>,
) -> LinkedCuts
    decreases n,
{
    if n <= 1 {
        LinkedCuts { lanes, next_id }
    } else {
        let before = linked_cuts(lanes, n - 1, next_id, t, group, right_group);
        let cut = linked_cut(lanes[n - 1], before.next_id, t, group, right_group);
        LinkedCuts { lanes: before.lanes.update(n - 1, cut.clips), next_id: cut.next_id }
    }
}

proof fn lemma_linked_cuts(
    lanes: Seq<Lane>,
    n: int,
    next_id: int,
    t: int,
    group: u64,
    right_group: Option<u64>,
)
    requires
        1 <= n <= lanes.len(),
    ensures
        ({
            let cuts = linked_cuts(lanes, n, next_id, t, group, right_group);
            &&& cuts.lanes.len() == lanes.len()
            &&& cuts.lanes[0] == lanes[0]
            &&& forall|i: int| n <= i < lanes.len() ==> #[trigger] cuts.lanes[i] == lanes[i]
        }),
    decreases n,
{
    if n > 1 {
        lemma_linked_cuts(lanes, n - 1, next_id, t, group, right_group);
    }
}

impl TimelineView {
    /// The timeline with the clip of the main track at `t` cut, and with it the clips
    /// that it is linked with; the pieces behind the cut form a link group of their own.
    #[verifier::opaque]
    pub open spec fn v1_razored(self, next_id: int, t: int) -> TimelineCut {
        let v1 = self.v1_clips;
        let at = first_straddler(v1, t);
        let left_group = v1[at].link_group_id;
        let right_group = if left_group is Some {
            Some(self.free_group())
        } else {
            None
        };
        let cut = cut_clip(v1, next_id, v1[at].id, t, left_group, right_group);
        if at >= v1.len() || cut.right_id is None {
            TimelineCut { timeline: self, next_id, right_id: None }
        } else {
            let lanes = self.lanes().update(0, cut.clips);
            let cuts = match left_group {
                Some(group) => linked_cuts(
                    lanes,
                    lanes.len() as int,
                    cut.next_id,
                    t,
                    group,
                    right_group,
                ),
                None => LinkedCuts { lanes, next_id: cut.next_id },
            };
            TimelineCut {
                timeline: self.with_lanes(cuts.lanes),
                next_id: cuts.next_id,
                right_id: cut.right_id,
            }
        }
    }

    /// The timeline with the clip of a row at `t` cut.
    #[verifier::opaque]
    pub open spec fn lane_razored(self, lane: int, next_id: int, t: int) -> TimelineCut {
        if 0 <= lane < self.lane_count() {
            let cut = cut_first(self.lane(lane), next_id, t);
            TimelineCut {
                timeline: self.with_lane(lane, cut.clips),
                next_id: cut.next_id,
                right_id: cut.right_id,
            }
        } else {
            TimelineCut { timeline: self, next_id, right_id: None }
        }
    }

    /// The number of the row of an audio track; none where there is no such track.
    pub open spec fn audio_lane(self, track: int) -> int {
        if track < self.audio_tracks.len() {
            1 + track
        } else {
            self.lane_count() as int
        }
    }

    /// The number of the row of a video track above the main one; none where there is
    /// no such track.
    pub open spec fn video_lane(self, track: int) -> int {
        if track < self.video_tracks.len() {
            1 + self.audio_tracks.len() + track
        } else {
            self.lane_count() as int
        }
    }

    /// The timeline with the subtitle of a track at `t` cut.
    #[verifier::opaque]
    pub open spec fn subtitle_razored(self, track: int, next_id: int, t: int) -> TimelineCut {
        if 0 <= track < self.subtitle_tracks.len() {
            let cut = cut_first_subtitle(self.subtitle_tracks[track].clips, next_id, t);
            TimelineCut {
                timeline: self.with_subtitles(track, cut.clips),
                next_id: cut.next_id,
                right_id: cut.right_id,
            }
        } else {
            TimelineCut { timeline: self, next_id, right_id: None }
        }
    }
}

impl SelectionView {
    /// The clip selected, and nothing else.
    pub open spec fn only_clip(id: u64) -> SelectionView {
        SelectionView {
            selected_clip_id: Some(id),
            selected_clip_ids: seq![id],
            selected_subtitle_id: None,
            selected_subtitle_ids: Seq::empty(),
        }
    }

    /// The subtitle selected, and nothing else.
    pub open spec fn only_subtitle(id: u64) -> SelectionView {
        SelectionView {
            selected_clip_id: None,
            selected_clip_ids: Seq::empty(),
            selected_subtitle_id: Some(id),
            selected_subtitle_ids: seq![id],
        }
    }

    /// The clip selected, if there is one.
    pub open spec fn then_clip(self, id: Option<u64>) -> SelectionView {
        match id {
            Some(x) => SelectionView::only_clip(x),
            None => self,
        }
    }

    /// The subtitle selected, if there is one.
    pub open spec fn then_subtitle(self, id: Option<u64>) -> SelectionView {
        match id {
            Some(x) => SelectionView::only_subtitle(x),
            None => self,
        }
    }
}

impl Selection {
    /// Selects the clip, and nothing else, if there is one.
    pub(crate) fn take_clip(&mut self, id: Option<u64>)
        ensures
            final(self)@ == old(self)@.then_clip(id),
    {
        if let Some(x) = id {
            self.selected_clip_id = Some(x);
            self.selected_clip_ids = vec![x];
            self.selected_subtitle_id = None;
            self.selected_subtitle_ids.clear();
            assert(self.selected_clip_ids@ =~= seq![x]);
        }
    }

    /// Selects the subtitle, and nothing else, if there is one.
    pub(crate) fn take_subtitle(&mut self, id: Option<u64>)
        ensures
            final(self)@ == old(self)@.then_subtitle(id),
    {
        if let Some(x) = id {
            self.selected_subtitle_id = Some(x);
            self.selected_subtitle_ids = vec![x];
            self.selected_clip_id = None;
            self.selected_clip_ids.clear();
            assert(self.selected_subtitle_ids@ =~= seq![x]);
        }
    }
}

proof fn lemma_sources(lane: Seq<Clip>, t: int)
    requires
        sources_fit(views(lane)),
    ensures
        forall|i: int|
            0 <= i < lane.len() && straddles((#[trigger] lane[i])@, t) ==> lane[i]@.source_in + (t
                - lane[i]@.start) <= MAX_NANOS,
{
    assert forall|i: int| 0 <= i < lane.len() && straddles(
        (#[trigger] lane[i])@,
        t,
    ) implies lane[i]@.source_in + (t - lane[i]@.start) <= MAX_NANOS by {
        assert(views(lane)[i].source_in + views(lane)[i].duration <= MAX_NANOS);
    }
}

fn cut_linked(
    lane: &mut Vec<Clip>,
    next_id: &mut u64,
    t: Duration,
    group: u64,
    right_group: Option<u64>,
)
    requires
        *old(next_id) + 2 <= u64::MAX,
        sources_fit(views(old(lane)@)),
    ensures
        ({
            let cut = linked_cut(views(old(lane)@), *old(next_id) as int, t@, group, right_group);
            &&& views(final(lane)@) == cut.clips
            &&& *final(next_id) == cut.next_id
            &&& *final(next_id) <= *old(next_id) + 2
        }),
{
    let ghost p = |c: Clip| c.link_group_id == Some(group) && straddles(c@, t@);
    let test = |c: &Clip| -> (yes: bool)
        ensures
            yes == (c.link_group_id == Some(group) && straddles(c@, t@)),
    {
        c.link_group_id == Some(group) && is_inside(c, t)
    };
    let at = position_by(lane, test, Ghost(p));
    proof {
        lemma_first_views(
            lane@,
            p,
            |c: ClipView| c.link_group_id == Some(group) && straddles(c, t@),
        );
        lemma_sources(lane@, t@);
    }
    if at < lane.len() {
        let clip_id: u64 = lane[at].id;
        let right_id = perform_razor_for_clip_id_with_groups(
            lane,
            next_id,
            clip_id,
            t,
            Some(group),
            right_group,
        );
    }
}

impl Timeline {
    fn cut_linked_lanes(
        &mut self,
        next_id: &mut u64,
        t: Duration,
        group: u64,
        right_group: Option<u64>,
    )
        requires
            old(self)@.lane_count() <= usize::MAX,
            *old(next_id) + 2 * old(self)@.lane_count() <= u64::MAX,
            forall|i: int|
                1 <= i < old(self)@.lane_count() ==> sources_fit(#[trigger] old(self)@.lane(i)),
        ensures
            ({
                let cuts = linked_cuts(
                    old(self)@.lanes(),
                    old(self)@.lane_count() as int,
                    *old(next_id) as int,
                    t@,
                    group,
                    right_group,
                );
                &&& final(self)@ == old(self)@.with_lanes(cuts.lanes)
                &&& *final(next_id) == cuts.next_id
            }),
    {
        let ghost base = self@;
        let ghost lanes = base.lanes();
        let ghost id0 = *next_id as int;
        let n: usize = self.lane_count();
        let mut i: usize = 1;
        proof {
            lemma_lanes_put_back(base);
        }
        while i < n
            invariant
                1 <= i <= n,
                n == base.lane_count(),
                lanes == base.lanes(),
                forall|j: int| 1 <= j < base.lane_count() ==> sources_fit(#[trigger] base.lane(j)),
                id0 + 2 * n <= u64::MAX,
                self@ == base.with_lanes(
                    linked_cuts(lanes, i as int, id0, t@, group, right_group).lanes,
                ),
                *next_id == linked_cuts(lanes, i as int, id0, t@, group, right_group).next_id,
                *next_id <= id0 + 2 * (i - 1),
            decreases n - i,
        {
            proof {
                lemma_linked_cuts(lanes, i as int, id0, t@, group, right_group);
                lemma_lanes_put(
                    base,
                    linked_cuts(lanes, i as int, id0, t@, group, right_group).lanes,
                );
                assert(sources_fit(base.lane(i as int)));
            }
            let lane = self.lane_mut(i);
            cut_linked(lane, next_id, t, group, right_group);
            i = i + 1;
        }
    }

    fn razor_v1(&mut self, next_id: &mut u64) -> (right_id: Option<u64>)
        requires
            old(self)@.lane_count() <= usize::MAX,
            old(self)@.sources_fit(),
            *old(next_id) + 2 * old(self)@.lane_count() + 2 <= u64::MAX,
        ensures
            ({
                let cut = old(self)@.v1_razored(*old(next_id) as int, old(self)@.playhead);
                &&& final(self)@ == cut.timeline
                &&& *final(next_id) == cut.next_id
                &&& right_id == cut.right_id
            }),
    {
        reveal(TimelineView::v1_razored);
        let ghost base = self@;
        let t = self.playhead;
        let ghost inside = |c: Clip| straddles(c@, t@);
        let test = |c: &Clip| -> (yes: bool)
            ensures
                yes == straddles(c@, t@),
        {
            is_inside(c, t)
        };
        let at = position_by(&self.v1_clips, test, Ghost(inside));
        proof {
            lemma_first_views(self.v1_clips@, inside, |c: ClipView| straddles(c, t@));
            assert(sources_fit(base.lane(0)));
            lemma_sources(self.v1_clips@, t@);
        }
        if at >= self.v1_clips.len() {
            return None;
        }
        let clip_id: u64 = self.v1_clips[at].id;
        let left_group = self.v1_clips[at].link_group_id;
        let right_group = match left_group {
            Some(_) => Some(self.allocate_next_link_group_id()),
            None => None,
        };
        let right_id = perform_razor_for_clip_id_with_groups(
            &mut self.v1_clips,
            next_id,
            clip_id,
            t,
            left_group,
            right_group,
        );
        if right_id.is_none() {
            return None;
        }
        let ghost lanes = base.lanes().update(0, self@.v1_clips);
        proof {
            assert(self@.lanes() =~= lanes);
            assert(self@ == base.with_lanes(lanes)) by {
                assert(base.with_lanes(lanes).audio_tracks =~= base.audio_tracks);
                assert(base.with_lanes(lanes).video_tracks =~= base.video_tracks);
            }
            lemma_lanes_put(base, lanes);
            assert forall|i: int| 1 <= i < self@.lane_count() implies sources_fit(
                #[trigger] self@.lane(i),
            ) by {
                assert(sources_fit(base.lane(i)));
            }
        }
        if let Some(group) = left_group {
            self.cut_linked_lanes(next_id, t, group, right_group);
        }
        right_id
    }

    fn razor_lane(&mut self, lane_index: usize, next_id: &mut u64) -> (right_id: Option<u64>)
        requires
            old(self)@.lane_count() <= usize::MAX,
            old(self)@.sources_fit(),
            *old(next_id) + 2 <= u64::MAX,
        ensures
            ({
                let cut = old(self)@.lane_razored(
                    lane_index as int,
                    *old(next_id) as int,
                    old(self)@.playhead,
                );
                &&& final(self)@ == cut.timeline
                &&& *final(next_id) == cut.next_id
                &&& right_id == cut.right_id
            }),
    {
        reveal(TimelineView::lane_razored);
        if lane_index >= self.lane_count() {
            return None;
        }
        let t = self.playhead;
        assert(sources_fit(self@.lane(lane_index as int)));
        let lane = self.lane_mut(lane_index);
        proof {
            lemma_sources(lane@, t@);
        }
        perform_razor(lane, next_id, t)
    }

    pub(crate) fn audio_lane(&self, track_index: usize) -> (lane: usize)
        requires
            self@.lane_count() <= usize::MAX,
        ensures
            lane == self@.audio_lane(track_index as int),
    {
        if track_index < self.audio_tracks.len() {
            1 + track_index
        } else {
            self.lane_count()
        }
    }

    pub(crate) fn video_lane(&self, track_index: usize) -> (lane: usize)
        requires
            self@.lane_count() <= usize::MAX,
        ensures
            lane == self@.video_lane(track_index as int),
    {
        if track_index < self.video_tracks.len() {
            1 + self.audio_tracks.len() + track_index
        } else {
            self.lane_count()
        }
    }

    fn razor_subtitle(&mut self, track_index: usize, next_id: &mut u64) -> (right_id: Option<u64>)
        requires
            *old(next_id) + 2 <= u64::MAX,
        ensures
            ({
                let cut = old(self)@.subtitle_razored(
                    track_index as int,
                    *old(next_id) as int,
                    old(self)@.playhead,
                );
                &&& final(self)@ == cut.timeline
                &&& *final(next_id) == cut.next_id
                &&& right_id == cut.right_id
            }),
    {
        reveal(TimelineView::subtitle_razored);
        if track_index >= self.subtitle_tracks.len() {
            return None;
        }
        let t = self.playhead;
        let ghost before = self.subtitle_tracks@;
        let right_id = perform_subtitle_razor(
            &mut self.subtitle_tracks[track_index].clips,
            next_id,
            t,
        );
        assert(self.subtitle_tracks@ =~= before.update(
            track_index as int,
            self.subtitle_tracks@[track_index as int],
        ));
        right_id
    }
}

impl StateView {
    /// The state after a cut of a clip; the piece behind the cut is selected.
    pub open spec fn after_cut(self, cut: TimelineCut) -> StateView {
        StateView {
            timeline: cut.timeline,
            next_clip_id: cut.next_id as u64,
            selection: self.selection.then_clip(cut.right_id),
            ..self
        }
    }

    /// The state after a cut of a subtitle; the piece behind the cut is selected.
    pub open spec fn after_subtitle_cut(self, cut: TimelineCut) -> StateView {
        StateView {
            timeline: cut.timeline,
            next_clip_id: cut.next_id as u64,
            selection: self.selection.then_subtitle(cut.right_id),
            ..self
        }
    }
}

proof fn lemma_repaired_sources_fit(s: StateView)
    requires
        s.timeline.sources_fit(),
    ensures
        s.repaired().timeline.sources_fit(),
{
    repairing_changes_only_groups(s);
    let a = s.timeline;
    let b = s.repaired().timeline;
    assert forall|i: int| 0 <= i < b.lane_count() implies sources_fit(#[trigger] b.lane(i)) by {
        assert(sources_fit(a.lane(i)));
        assert forall|k: int| 0 <= k < b.lane(i).len() implies (#[trigger] b.lane(i)[k]).source_in
            + b.lane(i)[k].duration <= MAX_NANOS by {
            assert(a.lane(i).len() == b.lane(i).len());
            assert(a.lane(i)[k].source_in + a.lane(i)[k].duration <= MAX_NANOS);
        }
    }
}

fn cut_result(right_id: Option<u64>, track: &str) -> (result: Result<(), GlobalStateError>)
    ensures
        result is Ok <==> right_id is Some,
        result matches Err(e) ==> (e matches GlobalStateError::NoClipToCut { track: name }
            && name@ == track@),
{
    match right_id {
        Some(_) => Ok(()),
        None => Err(GlobalStateError::NoClipToCut { track: owned(track) }),
    }
}

impl GlobalState {
    /// Cuts the clip of the main track at the playhead, and with it the clips that it is
    /// linked with.
    pub fn razor_v1_at_playhead(&mut self) -> (result: Result<(), GlobalStateError>)
        requires
            old(self)@.timeline.lane_count() <= usize::MAX,
            old(self)@.timeline.sources_fit(),
            old(self)@.next_clip_id + 2 * old(self)@.timeline.lane_count() + 2 <= u64::MAX,
        ensures
            ({
                let s = old(self)@.repaired().saved(false);
                let cut = s.timeline.v1_razored(s.next_clip_id as int, s.timeline.playhead);
                &&& final(self)@ == s.after_cut(cut)
                &&& result is Ok <==> cut.right_id is Some
            }),
            result matches Err(e) ==> (e matches GlobalStateError::NoClipToCut { track }
                && track@ == "V1"@),
    {
        self.repair_missing_primary_av_links();
        proof {
            lemma_repaired_sources_fit(old(self)@);
        }
        self.save_for_undo();
        let right_id = self.timeline.razor_v1(&mut self.next_clip_id);
        self.selection.take_clip(right_id);
        cut_result(right_id, "V1")
    }

    /// Cuts the clip of an audio track at the playhead.
    pub fn razor_audio_at_playhead(&mut self, track_index: usize) -> (result: Result<
        (),
        GlobalStateError,
    >)
        requires
            old(self)@.timeline.lane_count() <= usize::MAX,
            old(self)@.timeline.sources_fit(),
            old(self)@.next_clip_id + 2 <= u64::MAX,
        ensures
            ({
                let s = old(self)@.saved(false);
                let cut = s.timeline.lane_razored(
                    s.timeline.audio_lane(track_index as int),
                    s.next_clip_id as int,
                    s.timeline.playhead,
                );
                &&& final(self)@ == s.after_cut(cut)
                &&& result is Ok <==> cut.right_id is Some
            }),
            result matches Err(e) ==> (e matches GlobalStateError::NoClipToCut { track }
                && track@ == "Audio Track"@),
    {
        self.save_for_undo();
        let lane = self.timeline.audio_lane(track_index);
        let right_id = self.timeline.razor_lane(lane, &mut self.next_clip_id);
        self.selection.take_clip(right_id);
        cut_result(right_id, "Audio Track")
    }

    /// Cuts the clip of a video track above the main one at the playhead.
    pub fn razor_video_at_playhead(&mut self, track_index: usize) -> (result: Result<
        (),
        GlobalStateError,
    >)
        requires
            old(self)@.timeline.lane_count() <= usize::MAX,
            old(self)@.timeline.sources_fit(),
            old(self)@.next_clip_id + 2 <= u64::MAX,
        ensures
            ({
                let s = old(self)@.saved(false);
                let cut = s.timeline.lane_razored(
                    s.timeline.video_lane(track_index as int),
                    s.next_clip_id as int,
                    s.timeline.playhead,
                );
                &&& final(self)@ == s.after_cut(cut)
                &&& result is Ok <==> cut.right_id is Some
            }),
            result matches Err(e) ==> (e matches GlobalStateError::NoClipToCut { track }
                && track@ == "Video Track"@),
    {
        self.save_for_undo();
        let lane = self.timeline.video_lane(track_index);
        let right_id = self.timeline.razor_lane(lane, &mut self.next_clip_id);
        self.selection.take_clip(right_id);
        cut_result(right_id, "Video Track")
    }

    /// Cuts the subtitle of a track at the playhead.
    pub fn razor_subtitle_at_playhead(&mut self, track_index: usize) -> (result: Result<
        (),
        GlobalStateError,
    >)
        requires
            old(self)@.next_clip_id + 2 <= u64::MAX,
        ensures
            ({
                let s = old(self)@.saved(false);
                let cut = s.timeline.subtitle_razored(
                    track_index as int,
                    s.next_clip_id as int,
                    s.timeline.playhead,
                );
                &&& final(self)@ == s.after_subtitle_cut(cut)
                &&& result is Ok <==> cut.right_id is Some
            }),
            result matches Err(e) ==> e is NoSubtitleToCut,
    {
        self.save_for_undo();
        let right_id = self.timeline.razor_subtitle(track_index, &mut self.next_clip_id);
        self.selection.take_subtitle(right_id);
        match right_id {
            Some(_) => Ok(()),
            None => Err(GlobalStateError::NoSubtitleToCut),
        }
    }
}

} // verus!
