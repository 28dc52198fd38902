//! The rows of clips of the timeline, seen as one list: the main track, then the
//! audio tracks, then the video tracks above the main one.
use crate::clip::{Clip, ClipView};
use crate::copying::views;
use crate::tracks::{AudioTrackView, Timeline, TimelineView, VideoTrackView};
use vstd::prelude::*;

verus! {

broadcast use crate::copying::group_views;

/// A row of clips.
pub type Lane = Seq<ClipView>;

impl AudioTrackView {
    /// The track with other clips.
    pub open spec fn with_clips(self, clips: Lane) -> AudioTrackView {
        AudioTrackView { clips, ..self }
    }
}

impl VideoTrackView {
    /// The track with other clips.
    pub open spec fn with_clips(self, clips: Lane) -> VideoTrackView {
        VideoTrackView { clips, ..self }
    }
}

impl TimelineView {
    /// How many rows of clips there are.
    pub open spec fn lane_count(self) -> nat {
        1 + self.audio_tracks.len() + self.video_tracks.len()
    }

    /// The row with the given number.
    pub open spec fn lane(self, i: int) -> Lane {
        if i == 0 {
            self.v1_clips
        } else if i <= self.audio_tracks.len() {
            self.audio_tracks[i - 1].clips
        } else {
            self.video_tracks[i - 1 - self.audio_tracks.len()].clips
        }
    }

    /// All rows.
    pub open spec fn lanes(self) -> Seq<Lane> {
        Seq::new(self.lane_count(), |i: int| self.lane(i))
    }

    /// The timeline with other clips in its rows.
    pub open spec fn with_lanes(self, lanes: Seq<Lane>) -> TimelineView {
        TimelineView {
            v1_clips: lanes[0],
            audio_tracks: Seq::new(
                self.audio_tracks.len(),
                |k: int| self.audio_tracks[k].with_clips(lanes[1 + k]),
            ),
            video_tracks: Seq::new(
                self.video_tracks.len(),
                |k: int| self.video_tracks[k].with_clips(lanes[1 + self.audio_tracks.len() + k]),
            ),
            ..self
        }
    }

    /// The timeline with other clips in one row.
    pub open spec fn with_lane(self, i: int, lane: Lane) -> TimelineView {
        self.with_lanes(self.lanes().update(i, lane))
    }

    /// Every clip of every row.
    pub open spec fn all_clips(self) -> Lane {
        self.lanes().flatten()
    }
}

/// Putting the rows back changes nothing.
pub proof fn lemma_lanes_put_back(t: TimelineView)
    ensures
        t.with_lanes(t.lanes()) == t,
{
    let u = t.with_lanes(t.lanes());
    assert(u.audio_tracks =~= t.audio_tracks);
    assert(u.video_tracks =~= t.video_tracks);
}

/// What was put into the rows is what they hold, and the last put counts.
pub proof fn lemma_lanes_put(t: TimelineView, lanes: Seq<Lane>)
    requires
        lanes.len() == t.lane_count(),
    ensures
        t.with_lanes(lanes).lanes() == lanes,
        t.with_lanes(lanes).lane_count() == t.lane_count(),
        forall|other: Seq<Lane>|
            #![trigger t.with_lanes(lanes).with_lanes(other)]
            t.with_lanes(lanes).with_lanes(other) == t.with_lanes(other),
{
    let u = t.with_lanes(lanes);
    assert(u.lanes() =~= lanes);
    assert forall|other: Seq<Lane>|
        #![trigger t.with_lanes(lanes).with_lanes(other)]
        true implies t.with_lanes(lanes).with_lanes(other) == t.with_lanes(other) by {
        assert(u.with_lanes(other).audio_tracks =~= t.with_lanes(other).audio_tracks);
        assert(u.with_lanes(other).video_tracks =~= t.with_lanes(other).video_tracks);
    }
}

/// A clip is among all clips exactly if it is in a row.
pub proof fn lemma_all_clips(lanes: Seq<Lane>, c: ClipView)
    ensures
        lanes.flatten().contains(c) <==> exists|i: int|
            0 <= i < lanes.len() && (#[trigger] lanes[i]).contains(c),
    decreases lanes.len(),
{
    if lanes.len() > 0 {
        let rest = lanes.drop_first();
        lemma_all_clips(rest, c);
        let all = lanes.flatten();
        assert(all == lanes[0] + rest.flatten());
        if all.contains(c) {
            let k = all.index_of(c);
            assert(all[k] == c);
            if k < lanes[0].len() {
                assert(lanes[0][k] == c);
                assert(lanes[0].contains(c));
            } else {
                assert(rest.flatten()[k - lanes[0].len()] == c);
                assert(rest.flatten().contains(c));
                let i = choose|i: int| 0 <= i < rest.len() && (#[trigger] rest[i]).contains(c);
                assert(lanes[i + 1].contains(c));
            }
        }
        if exists|i: int| 0 <= i < lanes.len() && (#[trigger] lanes[i]).contains(c) {
            let i = choose|i: int| 0 <= i < lanes.len() && (#[trigger] lanes[i]).contains(c);
            let k = lanes[i].index_of(c);
            if i == 0 {
                assert(all[k] == c);
            } else {
                assert(rest[i - 1].contains(c));
                let m = rest.flatten().index_of(c);
                assert(all[lanes[0].len() + m] == c);
            }
        }
    } else {
        assert(lanes.flatten() =~= Seq::<ClipView>::empty());
    }
}

impl Timeline {
    /// How many rows of clips there are.
    pub fn lane_count(&self) -> (n: usize)
        requires
            self@.lane_count() <= usize::MAX,
        ensures
            n == self@.lane_count(),
    {
        1 + self.audio_tracks.len() + self.video_tracks.len()
    }

    /// The row with the given number.
    pub fn lane(&self, i: usize) -> (lane: &Vec<Clip>)
        requires
            i < self@.lane_count(),
        ensures
            views(lane@) == self@.lane(i as int),
            views(lane@) == self@.lanes()[i as int],
    {
        if i == 0 {
            &self.v1_clips
        } else if i <= self.audio_tracks.len() {
            &self.audio_tracks[i - 1].clips
        } else {
            &self.video_tracks[i - 1 - self.audio_tracks.len()].clips
        }
    }

    /// The row with the given number, to be changed.
    pub fn lane_mut(&mut self, i: usize) -> (lane: &mut Vec<Clip>)
        requires
            i < old(self)@.lane_count(),
        ensures
            views(lane@) == old(self)@.lanes()[i as int],
            final(self)@ == old(self)@.with_lanes(
                old(self)@.lanes().update(i as int, views(final(lane)@)),
            ),
    {
        let ghost before = self@;
        let ghost audio = self.audio_tracks@.len();
        if i == 0 {
            let lane = &mut self.v1_clips;
            proof {
                let after = before.with_lanes(before.lanes().update(0, views(final(lane)@)));
                assert(after.audio_tracks =~= before.audio_tracks);
                assert(after.video_tracks =~= before.video_tracks);
            }
            lane
        } else if i <= self.audio_tracks.len() {
            let lane = &mut self.audio_tracks[i - 1].clips;
            proof {
                let after = before.with_lanes(before.lanes().update(i as int, views(final(lane)@)));
                assert(after.audio_tracks =~= before.audio_tracks.update(
                    i - 1,
                    before.audio_tracks[i - 1].with_clips(views(final(lane)@)),
                ));
                assert(after.video_tracks =~= before.video_tracks);
            }
            lane
        } else {
            let k: usize = i - 1 - self.audio_tracks.len();
            let lane = &mut self.video_tracks[k].clips;
            proof {
                let after = before.with_lanes(before.lanes().update(i as int, views(final(lane)@)));
                assert(after.audio_tracks =~= before.audio_tracks);
                assert(after.video_tracks =~= before.video_tracks.update(
                    k as int,
                    before.video_tracks[k as int].with_clips(views(final(lane)@)),
                ));
            }
            lane
        }
    }
}

} // verus!
