//! Dragging clips.
use crate::clip::{by_start, sort_clips, Clip, ClipView};
use crate::copying::views;
use crate::lanes::Lane;
use crate::links::{earliest, way};
use crate::lists::{first, lemma_first, lemma_first_views, position_by, some};
use crate::modes::V1MoveMode;
use crate::state::{GlobalState, StateView};
use crate::subtitle::{sort_subtitles, subtitles_by_start, SubtitleClip, SubtitleClipView, SubtitleTrackView};
use crate::text::owned;
use crate::time::{least, Duration, MAX_NANOS};
use crate::tracks::{Timeline, TimelineView};
use vstd::prelude::*;

verus! {

broadcast use crate::copying::group_views;

// ---------------------------------------------------------------------------
// Clips one behind the other
// ---------------------------------------------------------------------------

/// How long the clips are together.
pub open spec fn total_length(clips: Lane) -> int
    decreases clips.len(),
{
    if clips.len() == 0 {
        0
    } else {
        total_length(clips.drop_last()) + clips.last().duration
    }
}

/// Where the clip with the given index starts when all are one behind the other.
pub open spec fn packed_start(clips: Lane, i: int) -> int {
    least(total_length(clips.take(i)), MAX_NANOS as int)
}

/// The clips one behind the other from the start of the timeline on.
#[verifier::opaque]
pub open spec fn packed(clips: Lane) -> Lane {
    Seq::new(clips.len(), |i: int| ClipView { start: packed_start(clips, i), ..clips[i] })
}

/// Packed clips leave no gap and do not overlap: each starts where the one before
/// it ends, and the first at the start of the timeline.
pub proof fn packed_is_contiguous(clips: Lane, i: int)
    requires
        0 <= i < clips.len(),
        total_length(clips) <= MAX_NANOS,
        forall|j: int| 0 <= j < clips.len() ==> (#[trigger] clips[j]).duration >= 0,
    ensures
        i == 0 ==> packed(clips)[i].start == 0,
        i > 0 ==> packed(clips)[i].start == packed(clips)[i - 1].end(),
{
    reveal(packed);
    lemma_total_length_grows(clips, i);
    if i > 0 {
        lemma_total_length_grows(clips, i - 1);
        assert(clips.take(i).drop_last() =~= clips.take(i - 1));
    } else {
        assert(clips.take(0).len() == 0);
    }
}

pub proof fn lemma_total_length_grows(clips: Lane, i: int)
    requires
        0 <= i <= clips.len(),
        forall|j: int| 0 <= j < clips.len() ==> (#[trigger] clips[j]).duration >= 0,
    ensures
        0 <= total_length(clips.take(i)) <= total_length(clips),
    decreases clips.len(),
{
    if i == clips.len() {
        assert(clips.take(i) =~= clips);
        if clips.len() > 0 {
            lemma_total_length_grows(clips.drop_last(), i - 1);
            assert(clips.drop_last().take(i - 1) =~= clips.drop_last());
        }
    } else {
        lemma_total_length_grows(clips.drop_last(), i);
        assert(clips.drop_last().take(i) =~= clips.take(i));
    }
}

/// Puts the clips one behind the other.
pub fn pack(clips: &mut Vec<Clip>)
    ensures
        views(final(clips)@) == packed(views(old(clips)@)),
{
    reveal(packed);
    let ghost before = views(clips@);
    let mut cursor = Duration::zero();
    let mut i: usize = 0;
    assert(total_length(before.take(0)) == 0);
    while i < clips.len()
        invariant
            i <= clips.len(),
            clips.len() == before.len(),
            cursor@ == packed_start(before, i as int),
            forall|j: int|
                0 <= j < i ==> (#[trigger] views(clips@)[j]) == (ClipView {
                    start: packed_start(before, j),
                    ..before[j]
                }),
            forall|j: int| i <= j < before.len() ==> (#[trigger] views(clips@)[j]) == before[j],
        decreases clips.len() - i,
    {
        assert(views(clips@)[i as int] == before[i as int]);
        assert(before.take(i + 1).drop_last() =~= before.take(i as int));
        let ghost mid = clips@;
        let duration = clips[i].duration;
        clips[i].start = cursor;
        assert(clips@ =~= mid.update(i as int, clips@[i as int]));
        cursor = cursor.saturating_add(duration);
        i = i + 1;
    }
    assert(views(clips@) =~= packed(before));
}

// ---------------------------------------------------------------------------
// Magnetic moves on the main track
// ---------------------------------------------------------------------------

/// The middle of the clip with the given index when all are one behind the other.
pub open spec fn packed_middle(clips: Lane, i: int) -> int {
    least(packed_start(clips, i) + clips[i].duration / 2, MAX_NANOS as int)
}

/// Where a clip dropped at the time `hint` goes: in front of the first clip, from
/// `i` on, whose middle is after it.
pub open spec fn drop_place(clips: Lane, hint: int, i: int) -> int
    decreases clips.len() - i,
{
    if i >= clips.len() {
        clips.len() as int
    } else if hint < packed_middle(clips, i) {
        i
    } else {
        drop_place(clips, hint, i + 1)
    }
}

fn find_drop_place(clips: &Vec<Clip>, hint: Duration) -> (place: usize)
    ensures
        place == drop_place(views(clips@), hint@, 0),
        place <= clips.len(),
{
    let ghost all = views(clips@);
    let mut cursor = Duration::zero();
    let mut i: usize = 0;
    assert(total_length(all.take(0)) == 0);
    while i < clips.len()
        invariant
            i <= clips.len(),
            all == views(clips@),
            cursor@ == packed_start(all, i as int),
            drop_place(all, hint@, 0) == drop_place(all, hint@, i as int),
        decreases clips.len() - i,
    {
        let half = Duration { nanos: clips[i].duration.nanos / 2 };
        let middle = cursor.saturating_add(half);
        if hint.nanos < middle.nanos {
            return i;
        }
        assert(all.take(i + 1).drop_last() =~= all.take(i as int));
        cursor = cursor.saturating_add(clips[i].duration);
        i = i + 1;
    }
    i
}

/// The place of the clip with the given id.
pub open spec fn place_of(clips: Lane, clip_id: u64) -> int {
    first(clips, |c: ClipView| c.id == clip_id)
}

/// The place of the clip with the given id, or the length.
pub fn find_clip(clips: &Vec<Clip>, clip_id: u64) -> (at: usize)
    ensures
        at == place_of(views(clips@), clip_id),
        at <= clips.len(),
        at < clips.len() ==> clips@[at as int].id == clip_id,
{
    let ghost p = |c: Clip| c.id == clip_id;
    let test = |c: &Clip| -> (yes: bool)
        ensures
            yes == (c.id == clip_id),
    {
        c.id == clip_id
    };
    proof {
        lemma_first_views(clips@, p, |c: ClipView| c.id == clip_id);
    }
    position_by(clips, test, Ghost(p))
}

impl StateView {
    /// The state after a drag on the main track that makes the other clips give way.
    pub open spec fn v1_moved_magnetic(self, clip_id: u64, hint: int) -> StateView {
        let s = self.repaired();
        let v1 = s.timeline.v1_clips;
        let at = place_of(v1, clip_id);
        if at >= v1.len() {
            s
        } else {
            let others = v1.remove(at);
            let arranged = packed(others.insert(drop_place(others, hint, 0), v1[at]));
            StateView {
                timeline: TimelineView { v1_clips: arranged, ..s.timeline }.following_v1(v1),
                ..s
            }
        }
    }
}

impl GlobalState {
    /// Moves a clip of the main track to the place nearest to `new_start_hint`; all
    /// clips of the track stay one behind the other, and linked clips follow.
    pub fn move_v1_clip_magnetic(&mut self, clip_id: u64, new_start_hint: Duration)
        requires
            old(self)@.timeline.lane_count() <= usize::MAX,
        ensures
            final(self)@ == old(self)@.v1_moved_magnetic(clip_id, new_start_hint@),
    {
        self.repair_missing_primary_av_links();
        let ghost s = self@;
        let anchors = self.timeline.v1_group_anchor_starts();
        let at = find_clip(&self.timeline.v1_clips, clip_id);
        if at >= self.timeline.v1_clips.len() {
            return;
        }
        let clip = self.timeline.v1_clips.remove(at);
        let place = find_drop_place(&self.timeline.v1_clips, new_start_hint);
        self.timeline.v1_clips.insert(place, clip);
        pack(&mut self.timeline.v1_clips);
        self.timeline.sync_linked_tracks_from_v1_deltas(&anchors, Ghost(s.timeline.v1_clips));
    }
}

// ---------------------------------------------------------------------------
// Free moves
// ---------------------------------------------------------------------------

/// The row with the given clip started at another time, in order of start.
#[verifier::opaque]
pub open spec fn restarted(clips: Lane, clip_id: u64, start: int) -> Lane {
    let at = place_of(clips, clip_id);
    if at < clips.len() {
        by_start(clips.update(at, ClipView { start, ..clips[at] }))
    } else {
        by_start(clips)
    }
}

/// Starts the given clip at another time.
pub fn restart(clips: &mut Vec<Clip>, clip_id: u64, start: Duration)
    ensures
        views(final(clips)@) == restarted(views(old(clips)@), clip_id, start@),
{
    reveal(restarted);
    let at = find_clip(clips, clip_id);
    if at < clips.len() {
        let ghost before = clips@;
        clips[at].start = start;
        assert(clips@ =~= before.update(at as int, clips@[at as int]));
    }
    sort_clips(clips);
}

impl TimelineView {
    /// The timeline after a free drag on the main track: the clip, or its whole link
    /// group, goes along.
    pub open spec fn v1_dragged(self, clip_id: u64, start: int) -> TimelineView {
        let v1 = self.v1_clips;
        let at = place_of(v1, clip_id);
        if at >= v1.len() {
            self
        } else {
            match v1[at].link_group_id {
                Some(group) => self.group_moved(group, start - v1[at].start, None),
                None => TimelineView { v1_clips: restarted(v1, clip_id, start), ..self },
            }
        }
    }

    /// Whether the clip of the audio track is linked.
    pub open spec fn is_linked_audio(self, track: int, clip_id: u64) -> bool {
        let clips = self.audio_tracks[track].clips;
        let at = place_of(clips, clip_id);
        track < self.audio_tracks.len() && at < clips.len() && clips[at].link_group_id is Some
    }

    /// The timeline after a free drag on an audio track. Linked sound does not move.
    pub open spec fn audio_dragged(self, track: int, clip_id: u64, start: int) -> TimelineView {
        if track >= self.audio_tracks.len() || self.is_linked_audio(track, clip_id) {
            self
        } else {
            let clips = self.audio_tracks[track].clips;
            self.with_audio_clips(track, restarted(clips, clip_id, start))
        }
    }

    /// The timeline with other clips on an audio track.
    pub open spec fn with_audio_clips(self, track: int, clips: Lane) -> TimelineView {
        TimelineView {
            audio_tracks: self.audio_tracks.update(
                track,
                self.audio_tracks[track].with_clips(clips),
            ),
            ..self
        }
    }

    /// The timeline with other clips on a video track above the main one.
    pub open spec fn with_video_clips(self, track: int, clips: Lane) -> TimelineView {
        TimelineView {
            video_tracks: self.video_tracks.update(
                track,
                self.video_tracks[track].with_clips(clips),
            ),
            ..self
        }
    }

    /// Whether a linked clip off the main track is held by the magnetic main track.
    pub open spec fn is_held(self, mode: V1MoveMode, group: Option<u64>) -> bool {
        group is Some && mode == V1MoveMode::Magnetic && has_group(self.v1_clips, group->0)
    }

    /// Whether the group stands at the start of the timeline and is to go back.
    pub open spec fn is_at_wall(self, group: u64, delta: int) -> bool {
        let wall = earliest_in_group(self.v1_clips, group);
        delta < 0 && wall is Some && wall->0 <= 1000
    }

    /// Whether the clip is on the video track.
    pub open spec fn has_video_clip(self, track: int, clip_id: u64) -> bool {
        track < self.video_tracks.len() && place_of(self.video_tracks[track].clips, clip_id)
            < self.video_tracks[track].clips.len()
    }

    /// The clip on the video track.
    pub open spec fn video_clip(self, track: int, clip_id: u64) -> ClipView {
        self.video_tracks[track].clips[place_of(self.video_tracks[track].clips, clip_id)]
    }

    /// The timeline after a free drag on a video track above the main one, of a clip
    /// that is not held.
    pub open spec fn video_dragged(self, track: int, clip_id: u64, start: int) -> TimelineView {
        let c = self.video_clip(track, clip_id);
        match c.link_group_id {
            Some(group) => if self.is_at_wall(group, start - c.start) {
                self
            } else {
                self.group_moved(group, start - c.start, None)
            },
            None => self.with_video_clips(
                track,
                restarted(self.video_tracks[track].clips, clip_id, start),
            ),
        }
    }

    /// The first video track, from `k` on, with the clip.
    pub open spec fn video_track_of(self, clip_id: u64, k: int) -> int
        decreases self.video_tracks.len() - k,
    {
        if k >= self.video_tracks.len() {
            self.video_tracks.len() as int
        } else if self.has_video_clip(k, clip_id) {
            k
        } else {
            self.video_track_of(clip_id, k + 1)
        }
    }

    /// The timeline with the clip on the video track `target`, if there is one.
    pub open spec fn video_rerouted(self, clip_id: u64, target: int) -> TimelineView {
        let source = self.video_track_of(clip_id, 0);
        if target >= self.video_tracks.len() || source >= self.video_tracks.len() || source
            == target {
            self
        } else {
            let clips = self.video_tracks[source].clips;
            let at = place_of(clips, clip_id);
            let left = self.with_video_clips(source, clips.remove(at));
            left.with_video_clips(
                target,
                by_start(left.video_tracks[target].clips.push(clips[at])),
            )
        }
    }
}

impl StateView {
    /// The state after a free drag on the main track, which is in free mode then.
    pub open spec fn v1_moved_free(self, clip_id: u64, start: int) -> StateView {
        let s = self.repaired();
        StateView {
            v1_move_mode: V1MoveMode::Free,
            timeline: s.timeline.v1_dragged(clip_id, start),
            ..s
        }
    }

    /// The state after a free drag on an audio track.
    pub open spec fn audio_moved_free(self, track: int, clip_id: u64, start: int) -> StateView {
        let s = self.repaired();
        StateView {
            timeline: s.timeline.audio_dragged(track, clip_id, start),
            ui_notice: if s.timeline.is_linked_audio(track, clip_id) {
                Some("Linked audio is locked. Unlink clip first to drag audio."@)
            } else {
                None
            },
            ..s
        }
    }

    /// The state after a free drag on a video track above the main one.
    pub open spec fn video_moved_free(self, track: int, clip_id: u64, start: int) -> StateView {
        let s = self.repaired();
        let drag = s.timeline.video_drag(s.v1_move_mode, track, clip_id);
        StateView {
            timeline: if drag == Drag::Free {
                s.timeline.video_dragged(track, clip_id, start)
            } else {
                s.timeline
            },
            ui_notice: drag.notice(s.ui_notice),
            ..s
        }
    }

    /// The state after a free drag of a clip on any video track above the main one,
    /// which may go on to another of these tracks.
    pub open spec fn video_moved_any(
        self,
        clip_id: u64,
        start: int,
        target: Option<usize>,
    ) -> StateView {
        let s = self.repaired();
        let source = s.timeline.video_track_of(clip_id, 0);
        let drag = s.timeline.video_drag(s.v1_move_mode, source, clip_id);
        StateView {
            timeline: if drag == Drag::Free {
                s.timeline.video_dragged(source, clip_id, start).video_goes_on(clip_id, target)
            } else {
                s.timeline
            },
            ui_notice: drag.notice(s.ui_notice),
            ..s
        }
    }
}

/// What a drag meets.
#[derive(Clone, Copy, Debug, PartialEq, Eq, Structural)]
pub enum Drag {
    /// There is no such clip.
    Missing,
    /// The clip is held by the magnetic main track.
    Held,
    /// The clip may move.
    Free,
}

impl Drag {
    /// What is told of it; `before` was told before.
    pub open spec fn notice(self, before: Option<Seq<char>>) -> Option<Seq<char>> {
        match self {
            Drag::Missing => before,
            Drag::Held => Some("Linked V2/V3 is locked while V1 is Magnetic. Move V1 instead."@),
            Drag::Free => None,
        }
    }
}

impl TimelineView {
    /// What a drag of the clip on the video track meets.
    pub open spec fn video_drag(self, mode: V1MoveMode, track: int, clip_id: u64) -> Drag {
        if !self.has_video_clip(track, clip_id) {
            Drag::Missing
        } else if self.is_held(mode, self.video_clip(track, clip_id).link_group_id) {
            Drag::Held
        } else {
            Drag::Free
        }
    }

    /// The timeline with the clip gone on to another video track, where one is named.
    pub open spec fn video_goes_on(self, clip_id: u64, target: Option<usize>) -> TimelineView {
        match target {
            Some(track) => self.video_rerouted(clip_id, track as int),
            None => self,
        }
    }
}

/// Whether the row has a clip of the group.
pub open spec fn has_group(clips: Lane, group: u64) -> bool {
    some(clips, |c: ClipView| c.link_group_id == Some(group))
}

/// The earliest start of the group's clips in the row.
pub open spec fn earliest_in_group(clips: Lane, group: u64) -> Option<int>
    decreases clips.len(),
{
    if clips.len() == 0 {
        None
    } else {
        let before = earliest_in_group(clips.drop_last(), group);
        if clips.last().link_group_id == Some(group) {
            match before {
                Some(t) => Some(least(t, clips.last().start)),
                None => Some(clips.last().start),
            }
        } else {
            before
        }
    }
}

/// The earliest start of the group's clips in the row.
pub fn link_group_min_start(clips: &Vec<Clip>, group: u64) -> (start: Option<Duration>)
    ensures
        start is Some == earliest_in_group(views(clips@), group) is Some,
        start is Some ==> start->0@ == earliest_in_group(views(clips@), group)->0,
{
    let ghost all = views(clips@);
    let mut start: Option<Duration> = None;
    let mut i: usize = 0;
    while i < clips.len()
        invariant
            i <= clips.len(),
            all == views(clips@),
            start is Some == earliest_in_group(all.take(i as int), group) is Some,
            start is Some ==> start->0@ == earliest_in_group(all.take(i as int), group)->0,
        decreases clips.len() - i,
    {
        assert(all.take(i + 1).drop_last() =~= all.take(i as int));
        if clips[i].link_group_id == Some(group) {
            start = match start {
                Some(t) => Some(t.min(clips[i].start)),
                None => Some(clips[i].start),
            };
        }
        i = i + 1;
    }
    assert(all.take(i as int) =~= all);
    start
}

/// Whether the row has a clip of the group.
pub fn link_group_has(clips: &Vec<Clip>, group: u64) -> (yes: bool)
    ensures
        yes == has_group(views(clips@), group),
{
    let ghost p = |c: Clip| c.link_group_id == Some(group);
    let ghost q = |c: ClipView| c.link_group_id == Some(group);
    let test = |c: &Clip| -> (yes: bool)
        ensures
            yes == (c.link_group_id == Some(group)),
    {
        c.link_group_id == Some(group)
    };
    let at = position_by(clips, test, Ghost(p));
    proof {
        lemma_first_views(clips@, p, q);
        lemma_first(views(clips@), q);
    }
    at < clips.len()
}

impl Timeline {
    fn drag_v1(&mut self, clip_id: u64, new_start: Duration)
        requires
            old(self)@.lane_count() <= usize::MAX,
        ensures
            final(self)@ == old(self)@.v1_dragged(clip_id, new_start@),
    {
        let at = find_clip(&self.v1_clips, clip_id);
        if at >= self.v1_clips.len() {
            return;
        }
        let old_start = self.v1_clips[at].start;
        match self.v1_clips[at].link_group_id {
            Some(group) => {
                self.sync_linked_group_delta(group, way(old_start, new_start), None);
            },
            None => {
                restart(&mut self.v1_clips, clip_id, new_start);
            },
        }
    }

    fn drag_audio(&mut self, track_index: usize, clip_id: u64, new_start: Duration) -> (linked:
        bool)
        ensures
            final(self)@ == old(self)@.audio_dragged(track_index as int, clip_id, new_start@),
            linked == old(self)@.is_linked_audio(track_index as int, clip_id),
    {
        if track_index >= self.audio_tracks.len() {
            return false;
        }
        let at = find_clip(&self.audio_tracks[track_index].clips, clip_id);
        if at < self.audio_tracks[track_index].clips.len()
            && self.audio_tracks[track_index].clips[at].link_group_id.is_some() {
            return true;
        }
        let ghost before = self.audio_tracks@;
        restart(&mut self.audio_tracks[track_index].clips, clip_id, new_start);
        assert(self.audio_tracks@ =~= before.update(
            track_index as int,
            self.audio_tracks@[track_index as int],
        ));
        false
    }

    fn drag_video(&mut self, track_index: usize, clip_id: u64, new_start: Duration)
        requires
            old(self)@.lane_count() <= usize::MAX,
            old(self)@.has_video_clip(track_index as int, clip_id),
        ensures
            final(self)@ == old(self)@.video_dragged(track_index as int, clip_id, new_start@),
    {
        let at = find_clip(&self.video_tracks[track_index].clips, clip_id);
        let old_start = self.video_tracks[track_index].clips[at].start;
        match self.video_tracks[track_index].clips[at].link_group_id {
            Some(group) => {
                let shift = way(old_start, new_start);
                if shift.back && shift.by.nanos > 0 {
                    if let Some(wall) = link_group_min_start(&self.v1_clips, group) {
                        if wall.nanos <= 1000 {
                            return;
                        }
                    }
                }
                self.sync_linked_group_delta(group, shift, None);
            },
            None => {
                let ghost before = self.video_tracks@;
                restart(&mut self.video_tracks[track_index].clips, clip_id, new_start);
                assert(self.video_tracks@ =~= before.update(
                    track_index as int,
                    self.video_tracks@[track_index as int],
                ));
            },
        }
    }

    fn holds_group(&self, mode: V1MoveMode, group: Option<u64>) -> (yes: bool)
        ensures
            yes == self@.is_held(mode, group),
    {
        match group {
            Some(g) => mode == V1MoveMode::Magnetic && link_group_has(&self.v1_clips, g),
            None => false,
        }
    }

    fn try_drag_video(
        &mut self,
        mode: V1MoveMode,
        track_index: usize,
        clip_id: u64,
        new_start: Duration,
    ) -> (drag: Drag)
        requires
            old(self)@.lane_count() <= usize::MAX,
        ensures
            drag == old(self)@.video_drag(mode, track_index as int, clip_id),
            final(self)@ == if drag == Drag::Free {
                old(self)@.video_dragged(track_index as int, clip_id, new_start@)
            } else {
                old(self)@
            },
    {
        if track_index >= self.video_tracks.len() {
            return Drag::Missing;
        }
        let at = find_clip(&self.video_tracks[track_index].clips, clip_id);
        if at >= self.video_tracks[track_index].clips.len() {
            return Drag::Missing;
        }
        if self.holds_group(mode, self.video_tracks[track_index].clips[at].link_group_id) {
            return Drag::Held;
        }
        self.drag_video(track_index, clip_id, new_start);
        Drag::Free
    }

    fn try_drag_video_any(
        &mut self,
        mode: V1MoveMode,
        clip_id: u64,
        new_start: Duration,
        target: Option<usize>,
    ) -> (drag: Drag)
        requires
            old(self)@.lane_count() <= usize::MAX,
        ensures
            ({
                let source = old(self)@.video_track_of(clip_id, 0);
                &&& drag == old(self)@.video_drag(mode, source, clip_id)
                &&& final(self)@ == if drag == Drag::Free {
                    old(self)@.video_dragged(source, clip_id, new_start@).video_goes_on(
                        clip_id,
                        target,
                    )
                } else {
                    old(self)@
                }
            }),
    {
        let source = self.find_video_track(clip_id);
        let drag = self.try_drag_video(mode, source, clip_id, new_start);
        if drag == Drag::Free {
            if let Some(track) = target {
                self.reroute_video(clip_id, track);
            }
        }
        drag
    }

    pub(crate) fn find_video_track(&self, clip_id: u64) -> (track: usize)
        ensures
            track == self@.video_track_of(clip_id, 0),
            track <= self@.video_tracks.len(),
            track < self@.video_tracks.len() ==> self@.has_video_clip(track as int, clip_id),
    {
        let mut k: usize = 0;
        while k < self.video_tracks.len()
            invariant
                k <= self.video_tracks.len(),
                self@.video_track_of(clip_id, 0) == self@.video_track_of(clip_id, k as int),
            decreases self.video_tracks.len() - k,
        {
            if find_clip(&self.video_tracks[k].clips, clip_id) < self.video_tracks[k].clips.len() {
                return k;
            }
            k = k + 1;
        }
        k
    }

    fn reroute_video(&mut self, clip_id: u64, target: usize)
        ensures
            final(self)@ == old(self)@.video_rerouted(clip_id, target as int),
    {
        let source = self.find_video_track(clip_id);
        if target >= self.video_tracks.len() || source >= self.video_tracks.len() || source
            == target {
            return;
        }
        let at = find_clip(&self.video_tracks[source].clips, clip_id);
        let ghost base = self@;
        let ghost before = self.video_tracks@;
        let clip = self.video_tracks[source].clips.remove(at);
        assert(self.video_tracks@ =~= before.update(
            source as int,
            self.video_tracks@[source as int],
        ));
        let ghost left = self@;
        let ghost between = self.video_tracks@;
        assert(left == base.with_video_clips(
            source as int,
            base.video_tracks[source as int].clips.remove(at as int),
        ));
        self.video_tracks[target].clips.push(clip);
        sort_clips(&mut self.video_tracks[target].clips);
        assert(self.video_tracks@ =~= between.update(
            target as int,
            self.video_tracks@[target as int],
        ));
    }
}

impl GlobalState {
    /// Moves a clip of the main track, or its whole link group, freely. The main
    /// track is in free mode afterwards.
    pub fn move_v1_clip_free(&mut self, clip_id: u64, new_start: Duration)
        requires
            old(self)@.timeline.lane_count() <= usize::MAX,
        ensures
            final(self)@ == old(self)@.v1_moved_free(clip_id, new_start@),
    {
        self.repair_missing_primary_av_links();
        self.v1_move_mode = V1MoveMode::Free;
        self.timeline.drag_v1(clip_id, new_start);
    }

    /// Moves a clip of an audio track freely, unless it is linked.
    pub fn move_audio_clip_free(&mut self, track_index: usize, clip_id: u64, new_start: Duration)
        requires
            old(self)@.timeline.lane_count() <= usize::MAX,
        ensures
            final(self)@ == old(self)@.audio_moved_free(track_index as int, clip_id, new_start@),
    {
        self.repair_missing_primary_av_links();
        let linked = self.timeline.drag_audio(track_index, clip_id, new_start);
        self.ui_notice = if linked {
            Some(owned("Linked audio is locked. Unlink clip first to drag audio."))
        } else {
            None
        };
    }

    fn tell_drag(&mut self, drag: Drag)
        ensures
            final(self)@ == (StateView {
                ui_notice: drag.notice(old(self)@.ui_notice),
                ..old(self)@
            }),
    {
        match drag {
            Drag::Missing => {},
            Drag::Held => {
                self.ui_notice = Some(
                    owned("Linked V2/V3 is locked while V1 is Magnetic. Move V1 instead."),
                );
            },
            Drag::Free => {
                self.ui_notice = None;
            },
        }
    }

    /// Moves a clip of a video track above the main one, or its whole link group,
    /// freely.
    pub fn move_video_clip_free(&mut self, track_index: usize, clip_id: u64, new_start: Duration)
        requires
            old(self)@.timeline.lane_count() <= usize::MAX,
        ensures
            final(self)@ == old(self)@.video_moved_free(track_index as int, clip_id, new_start@),
    {
        self.repair_missing_primary_av_links();
        let drag = self.timeline.try_drag_video(
            self.v1_move_mode,
            track_index,
            clip_id,
            new_start,
        );
        self.tell_drag(drag);
    }

    /// Moves a clip of any video track above the main one, or its whole link group,
    /// freely; the clip goes on to the track `target_track_index` if there is one.
    pub fn move_video_clip_free_any_track(
        &mut self,
        clip_id: u64,
        new_start: Duration,
        target_track_index: Option<usize>,
    )
        requires
            old(self)@.timeline.lane_count() <= usize::MAX,
        ensures
            final(self)@ == old(self)@.video_moved_any(clip_id, new_start@, target_track_index),
    {
        self.repair_missing_primary_av_links();
        let drag = self.timeline.try_drag_video_any(
            self.v1_move_mode,
            clip_id,
            new_start,
            target_track_index,
        );
        self.tell_drag(drag);
    }
}

/// The subtitles with the given one started at another time, in order of start.
pub open spec fn subtitle_restarted(
    clips: Seq<SubtitleClipView>,
    clip_id: u64,
    start: int,
) -> Seq<SubtitleClipView> {
    let at = subtitle_place(clips, clip_id);
    if at < clips.len() {
        subtitles_by_start(clips.update(at, SubtitleClipView { start, ..clips[at] }))
    } else {
        subtitles_by_start(clips)
    }
}

/// The place of the subtitle with the given id.
pub open spec fn subtitle_place(clips: Seq<SubtitleClipView>, clip_id: u64) -> int {
    first(clips, |c: SubtitleClipView| c.id == clip_id)
}

/// The place of the subtitle with the given id, or the length.
pub fn find_subtitle(clips: &Vec<SubtitleClip>, clip_id: u64) -> (at: usize)
    ensures
        at == subtitle_place(views(clips@), clip_id),
        at <= clips.len(),
        at < clips.len() ==> clips@[at as int].id == clip_id,
{
    let ghost p = |c: SubtitleClip| c.id == clip_id;
    let test = |c: &SubtitleClip| -> (yes: bool)
        ensures
            yes == (c.id == clip_id),
    {
        c.id == clip_id
    };
    proof {
        lemma_first_views(clips@, p, |c: SubtitleClipView| c.id == clip_id);
    }
    position_by(clips, test, Ghost(p))
}

impl TimelineView {
    /// The timeline with other subtitles on a subtitle track.
    pub open spec fn with_subtitles(
        self,
        track: int,
        clips: Seq<SubtitleClipView>,
    ) -> TimelineView {
        TimelineView {
            subtitle_tracks: self.subtitle_tracks.update(
                track,
                SubtitleTrackView { clips, ..self.subtitle_tracks[track] },
            ),
            ..self
        }
    }

    /// The timeline after a free drag of a subtitle.
    pub open spec fn subtitle_dragged(self, track: int, clip_id: u64, start: int) -> TimelineView {
        if track < self.subtitle_tracks.len() {
            self.with_subtitles(
                track,
                subtitle_restarted(self.subtitle_tracks[track].clips, clip_id, start),
            )
        } else {
            self
        }
    }
}

impl Timeline {
    fn drag_subtitle(&mut self, track_index: usize, clip_id: u64, new_start: Duration)
        ensures
            final(self)@ == old(self)@.subtitle_dragged(track_index as int, clip_id, new_start@),
    {
        if track_index < self.subtitle_tracks.len() {
            let ghost before = self.subtitle_tracks@;
            let at = find_subtitle(&self.subtitle_tracks[track_index].clips, clip_id);
            if at < self.subtitle_tracks[track_index].clips.len() {
                let ghost clips = self.subtitle_tracks@[track_index as int].clips@;
                self.subtitle_tracks[track_index].clips[at].start = new_start;
                assert(self.subtitle_tracks@[track_index as int].clips@ =~= clips.update(
                    at as int,
                    self.subtitle_tracks@[track_index as int].clips@[at as int],
                ));
            }
            sort_subtitles(&mut self.subtitle_tracks[track_index].clips);
            assert(self.subtitle_tracks@ =~= before.update(
                track_index as int,
                self.subtitle_tracks@[track_index as int],
            ));
        }
    }
}

impl GlobalState {
    /// Moves a subtitle freely.
    pub fn move_subtitle_clip_free(&mut self, track_index: usize, clip_id: u64, new_start: Duration)
        ensures
            final(self)@ == (StateView {
                timeline: old(self)@.timeline.subtitle_dragged(
                    track_index as int,
                    clip_id,
                    new_start@,
                ),
                ..old(self)@
            }),
    {
        self.timeline.drag_subtitle(track_index, clip_id, new_start);
    }
}

/// A drag on the main track that makes the others give way loses no clip and makes none: each
/// is still there, at another time.
pub proof fn magnetic_move_keeps_clips(v1: Lane, at: int, place: int, i: int)
    requires
        0 <= at < v1.len(),
        0 <= place <= v1.len() - 1,
        0 <= i < v1.len(),
    ensures
        ({
            let arranged = packed(v1.remove(at).insert(place, v1[at]));
            &&& arranged.len() == v1.len()
            &&& exists|j: int|
                0 <= j < arranged.len() && (ClipView {
                    start: v1[i].start,
                    ..#[trigger] arranged[j]
                }) == v1[i]
        }),
{
    reveal(packed);
    let others = v1.remove(at);
    let lined = others.insert(place, v1[at]);
    let arranged = packed(lined);
    let from = if i < at {
        i
    } else {
        i - 1
    };
    let j = if i == at {
        place
    } else if from < place {
        from
    } else {
        from + 1
    };
    assert(lined[j] == v1[i]);
    assert((ClipView { start: v1[i].start, ..arranged[j] }) == v1[i]);
}

} // verus!
