//! Copies of clips on the timeline.
use crate::clip::{by_start, sort_clips, Clip, ClipView};
use crate::copying::views;
use crate::modes::TrackType;
use crate::moves::{find_clip, find_subtitle, subtitle_place};
use crate::lanes::Lane;
use crate::placing::{next_number, take_id};
use crate::state::{GlobalState, SelectionView, StateView};
use crate::subtitle::{sort_subtitles, subtitles_by_start, SubtitleClip, SubtitleClipView};
use crate::time::{least, Duration, MAX_NANOS};
use crate::tracks::{Timeline, TimelineView};
use vstd::prelude::*;

verus! {

broadcast use crate::copying::group_views;

/// The copy of a clip: not linked, and with no dissolve to account for.
pub open spec fn duplicate_of(c: ClipView, id: u64, start: int) -> ClipView {
    ClipView {
        id,
        start,
        link_group_id: None,
        dissolve_trim_in: 0,
        dissolve_trim_out: 0,
        ..c
    }
}

/// The row with the clips from `start` on moved later to make room.
pub open spec fn with_room(lane: Lane, start: int, room: int) -> Lane {
    lane.map_values(
        |c: ClipView|
            if c.start >= start {
                ClipView { start: least(c.start + room, MAX_NANOS as int), ..c }
            } else {
                c
            },
    )
}

impl TimelineView {
    /// The timeline with a copy of the clip. On the main track the clips behind it make
    /// room, and linked clips follow.
    #[verifier::opaque]
    pub open spec fn clip_duplicated(self, track: TrackType, c: ClipView, id: u64, start: int) -> TimelineView {
        let copy = duplicate_of(c, id, start);
        if track == TrackType::V1 {
            TimelineView {
                v1_clips: by_start(with_room(self.v1_clips, start, c.duration).push(copy)),
                ..self
            }.following_v1(self.v1_clips)
        } else {
            let i = self.lane_of(track);
            self.with_lane(i, by_start(self.lane(i).push(copy)))
        }
    }
}

fn make_room(lane: &mut Vec<Clip>, start: Duration, room: Duration)
    ensures
        views(final(lane)@) == with_room(views(old(lane)@), start@, room@),
{
    let ghost before = views(lane@);
    let ghost after = with_room(before, start@, room@);
    let mut i: usize = 0;
    while i < lane.len()
        invariant
            i <= lane.len(),
            lane.len() == before.len(),
            after == with_room(before, start@, room@),
            forall|j: int| 0 <= j < i ==> #[trigger] views(lane@)[j] == after[j],
            forall|j: int| i <= j < before.len() ==> #[trigger] views(lane@)[j] == before[j],
        decreases lane.len() - i,
    {
        assert(views(lane@)[i as int] == before[i as int]);
        if lane[i].start.nanos >= start.nanos {
            let ghost mid = lane@;
            let moved = lane[i].start.saturating_add(room);
            lane[i].start = moved;
            assert(lane@ =~= mid.update(i as int, lane@[i as int]));
        }
        i = i + 1;
    }
    assert(views(lane@) =~= after);
}

impl Timeline {
    /// The clip on the track, if it is there.
    fn find_on(&self, track: TrackType, clip_id: u64) -> (c: Option<Clip>)
        requires
            self@.lane_count() <= usize::MAX,
        ensures
            c is Some == self@.clip_on(track, clip_id) is Some,
            c is Some ==> c->0@ == self@.clip_on(track, clip_id)->0,
    {
        let i = self.lane_of(track);
        if i >= self.lane_count() {
            return None;
        }
        let lane = self.lane(i);
        let at = find_clip(lane, clip_id);
        if at < lane.len() {
            Some(lane[at].clone())
        } else {
            None
        }
    }

    fn duplicate(&mut self, track: TrackType, base: Clip, id: u64, start: Duration)
        requires
            old(self)@.lane_count() <= usize::MAX,
            old(self)@.lane_of(track) < old(self)@.lane_count(),
        ensures
            final(self)@ == old(self)@.clip_duplicated(track, base@, id, start@),
    {
        reveal(TimelineView::clip_duplicated);
        let mut copy = base;
        let room = copy.duration;
        copy.id = id;
        copy.start = start;
        copy.link_group_id = None;
        copy.dissolve_trim_in = Duration::zero();
        copy.dissolve_trim_out = Duration::zero();
        if track == TrackType::V1 {
            let ghost before = self@.v1_clips;
            let anchors = self.v1_group_anchor_starts();
            make_room(&mut self.v1_clips, start, room);
            self.v1_clips.push(copy);
            sort_clips(&mut self.v1_clips);
            self.sync_linked_tracks_from_v1_deltas(&anchors, Ghost(before));
        } else {
            let i = self.lane_of(track);
            let lane = self.lane_mut(i);
            lane.push(copy);
            sort_clips(lane);
        }
    }
}

impl StateView {
    /// The state with a copy of the clip at `start`; it is selected.
    pub open spec fn duplicated_at(self, track: TrackType, clip_id: u64, start: int) -> StateView {
        let r = self.repaired();
        match r.timeline.clip_on(track, clip_id) {
            Some(c) => r.copied(track, c, start),
            None => r,
        }
    }

    /// The state with a copy of the clip at `start`; it is selected.
    #[verifier::opaque]
    pub open spec fn copied(self, track: TrackType, c: ClipView, start: int) -> StateView {
        let s = self.saved(false);
        StateView {
            timeline: s.timeline.clip_duplicated(
                track,
                c,
                s.next_clip_id,
                start,
            ).nothing_selected(),
            next_clip_id: next_number(s.next_clip_id),
            selection: SelectionView::only_clip(s.next_clip_id),
            ..s
        }
    }
}

impl GlobalState {
    fn copy_clip(&mut self, track: TrackType, base: Clip, start: Duration)
        requires
            old(self)@.timeline.lane_count() <= usize::MAX,
            old(self)@.timeline.lane_of(track) < old(self)@.timeline.lane_count(),
        ensures
            final(self)@ == old(self)@.copied(track, base@, start@),
    {
        reveal(StateView::copied);
        self.save_for_undo();
        let id = take_id(&mut self.next_clip_id);
        self.timeline.duplicate(track, base, id, start);
        self.timeline.select_nothing();
        self.selection.take_clip(Some(id));
    }

    /// Copies a clip to the time `new_start`. Says whether there was one.
    pub fn duplicate_timeline_clip_at(
        &mut self,
        track_type: TrackType,
        clip_id: u64,
        new_start: Duration,
    ) -> (copied: bool)
        requires
            old(self)@.timeline.lane_count() <= usize::MAX,
        ensures
            copied == old(self)@.repaired().timeline.clip_on(track_type, clip_id) is Some,
            final(self)@ == old(self)@.duplicated_at(track_type, clip_id, new_start@),
    {
        self.repair_missing_primary_av_links();
        match self.timeline.find_on(track_type, clip_id) {
            Some(base) => {
                self.copy_clip(track_type, base, new_start);
                true
            },
            None => false,
        }
    }

    /// Copies a clip to where it ends. Says whether there was one.
    pub fn duplicate_timeline_clip_after(&mut self, track_type: TrackType, clip_id: u64) -> (copied:
        bool)
        requires
            old(self)@.timeline.lane_count() <= usize::MAX,
            old(self)@.timeline.clip_on(track_type, clip_id) matches Some(c) ==> c.end()
                <= MAX_NANOS,
        ensures
            match old(self)@.timeline.clip_on(track_type, clip_id) {
                Some(c) => copied == old(self)@.repaired().timeline.clip_on(
                    track_type,
                    clip_id,
                ) is Some && final(self)@ == old(self)@.duplicated_at(track_type, clip_id, c.end()),
                None => !copied && final(self)@ == old(self)@,
            },
    {
        match self.timeline.find_on(track_type, clip_id) {
            Some(base) => {
                let end = base.end();
                self.duplicate_timeline_clip_at(track_type, clip_id, end)
            },
            None => false,
        }
    }
}

// ---------------------------------------------------------------------------
// Subtitles
// ---------------------------------------------------------------------------

impl TimelineView {
    /// The subtitle with the id on the track, if there is one.
    pub open spec fn subtitle_on(self, track: int, clip_id: u64) -> Option<SubtitleClipView> {
        let clips = self.subtitle_tracks[track].clips;
        if track < self.subtitle_tracks.len() && subtitle_place(clips, clip_id) < clips.len() {
            Some(clips[subtitle_place(clips, clip_id)])
        } else {
            None
        }
    }

    /// The timeline with one more subtitle on the track.
    #[verifier::opaque]
    pub open spec fn with_subtitle(self, track: int, c: SubtitleClipView) -> TimelineView {
        self.with_subtitles(track, subtitles_by_start(self.subtitle_tracks[track].clips.push(c)))
    }
}

impl Timeline {
    fn find_subtitle_on(&self, track_index: usize, clip_id: u64) -> (c: Option<SubtitleClip>)
        ensures
            c is Some == self@.subtitle_on(track_index as int, clip_id) is Some,
            c is Some ==> c->0@ == self@.subtitle_on(track_index as int, clip_id)->0,
    {
        if track_index >= self.subtitle_tracks.len() {
            return None;
        }
        let clips = &self.subtitle_tracks[track_index].clips;
        let at = find_subtitle(clips, clip_id);
        if at < clips.len() {
            Some(clips[at].clone())
        } else {
            None
        }
    }

    fn put_subtitle(&mut self, track_index: usize, c: SubtitleClip)
        requires
            track_index < old(self)@.subtitle_tracks.len(),
        ensures
            final(self)@ == old(self)@.with_subtitle(track_index as int, c@),
    {
        reveal(TimelineView::with_subtitle);
        let ghost before = self.subtitle_tracks@;
        self.subtitle_tracks[track_index].clips.push(c);
        sort_subtitles(&mut self.subtitle_tracks[track_index].clips);
        assert(self.subtitle_tracks@ =~= before.update(
            track_index as int,
            self.subtitle_tracks@[track_index as int],
        ));
    }
}

impl StateView {
    /// The state with a copy of the subtitle at `start`; it is selected.
    #[verifier::opaque]
    pub open spec fn subtitle_copied(self, track: int, c: SubtitleClipView, start: int) -> StateView {
        let s = self.saved(false);
        StateView {
            timeline: s.timeline.with_subtitle(
                track,
                SubtitleClipView { id: s.next_clip_id, start, ..c },
            ).nothing_selected(),
            next_clip_id: next_number(s.next_clip_id),
            selection: SelectionView::only_subtitle(s.next_clip_id),
            ..s
        }
    }

    /// The state with a copy of the subtitle at `start`, if there is one.
    pub open spec fn subtitle_duplicated_at(self, track: int, clip_id: u64, start: int) -> StateView {
        match self.timeline.subtitle_on(track, clip_id) {
            Some(c) => self.subtitle_copied(track, c, start),
            None => self,
        }
    }
}

impl GlobalState {
    fn copy_subtitle(&mut self, track_index: usize, base: SubtitleClip, start: Duration)
        requires
            track_index < old(self)@.timeline.subtitle_tracks.len(),
        ensures
            final(self)@ == old(self)@.subtitle_copied(track_index as int, base@, start@),
    {
        reveal(StateView::subtitle_copied);
        self.save_for_undo();
        let id = take_id(&mut self.next_clip_id);
        let mut copy = base;
        copy.id = id;
        copy.start = start;
        self.timeline.put_subtitle(track_index, copy);
        self.timeline.select_nothing();
        self.selection.take_subtitle(Some(id));
    }

    /// Copies a subtitle to the time `new_start`. Says whether there was one.
    pub fn duplicate_subtitle_clip_at(
        &mut self,
        track_index: usize,
        clip_id: u64,
        new_start: Duration,
    ) -> (copied: bool)
        ensures
            copied == old(self)@.timeline.subtitle_on(track_index as int, clip_id) is Some,
            final(self)@ == old(self)@.subtitle_duplicated_at(
                track_index as int,
                clip_id,
                new_start@,
            ),
    {
        match self.timeline.find_subtitle_on(track_index, clip_id) {
            Some(base) => {
                self.copy_subtitle(track_index, base, new_start);
                true
            },
            None => false,
        }
    }

    /// Copies a subtitle to where it ends. Says whether there was one.
    pub fn duplicate_subtitle_clip_after(&mut self, track_index: usize, clip_id: u64) -> (copied:
        bool)
        requires
            old(self)@.timeline.subtitle_on(track_index as int, clip_id) matches Some(c)
                ==> c.end() <= MAX_NANOS,
        ensures
            copied == old(self)@.timeline.subtitle_on(track_index as int, clip_id) is Some,
            final(self)@ == match old(self)@.timeline.subtitle_on(track_index as int, clip_id) {
                Some(c) => old(self)@.subtitle_copied(track_index as int, c, c.end()),
                None => old(self)@,
            },
    {
        match self.timeline.find_subtitle_on(track_index, clip_id) {
            Some(base) => {
                let end = base.end();
                self.copy_subtitle(track_index, base, end);
                true
            },
            None => false,
        }
    }
}

/// A copy shows what the clip shows, for as long and with the same effects, and is linked
/// with nothing.
pub proof fn copy_shows_the_same(c: ClipView, id: u64, start: int, x: int)
    ensures
        ({
            let d = duplicate_of(c, id, start);
            &&& d.id == id && d.start == start && d.link_group_id is None
            &&& d.duration == c.duration && d.source_in == c.source_in
            &&& d.file_path == c.file_path && d.video_effects == c.video_effects
            &&& d.keyframes == c.keyframes && d.local_mask_layers == c.local_mask_layers
            &&& crate::razor::shown_source(d, start + x) == crate::razor::shown_source(
                c,
                c.start + x,
            )
        }),
{
}

/// Making room for a copy moves what is behind it by its length and nothing else, so clips
/// that were apart stay apart.
pub proof fn making_room_keeps_clips_apart(lane: Lane, start: int, room: int, i: int, j: int)
    requires
        0 <= i < lane.len(),
        0 <= j < lane.len(),
        0 <= room,
        lane[i].duration >= 0,
        lane[i].end() <= lane[j].start,
        lane[i].start + room <= MAX_NANOS,
        lane[j].start + room <= MAX_NANOS,
    ensures
        with_room(lane, start, room)[i].end() <= with_room(lane, start, room)[j].start,
{
}

} // verus!
