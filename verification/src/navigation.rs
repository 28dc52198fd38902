//! The playhead, the length of the timeline and what is selected on it.
use crate::clip::{Clip, ClipView};
use crate::copying::views;
use crate::lanes::Lane;
use crate::lists::{first, lemma_first_views, position_by};
use crate::state::{GlobalState, SelectionView, StateView};
use crate::subtitle::{SubtitleClip, SubtitleClipView};
use crate::time::{greatest, least, Duration, MAX_NANOS, NANOS_PER_SEC};
use crate::tracks::{SemanticClipView, Timeline, TimelineView};
use vstd::prelude::*;

verus! {

broadcast use crate::copying::group_views;

// ---------------------------------------------------------------------------
// Length
// ---------------------------------------------------------------------------

/// The end of the last clip of a row.
pub open spec fn last_end(lane: Lane) -> int {
    if lane.len() == 0 {
        0
    } else {
        least(lane.last().end(), MAX_NANOS as int)
    }
}

/// The end of the last subtitle of a row.
pub open spec fn last_subtitle_end(clips: Seq<SubtitleClipView>) -> int {
    if clips.len() == 0 {
        0
    } else {
        least(clips.last().end(), MAX_NANOS as int)
    }
}

/// The end of the last marked stretch.
pub open spec fn last_semantic_end(clips: Seq<SemanticClipView>) -> int {
    if clips.len() == 0 {
        0
    } else {
        least(clips.last().end(), MAX_NANOS as int)
    }
}

impl TimelineView {
    /// The latest end of the first `n` rows of clips.
    pub open spec fn lanes_end(self, n: int) -> int
        decreases n,
    {
        if n <= 0 {
            0
        } else {
            greatest(self.lanes_end(n - 1), last_end(self.lane(n - 1)))
        }
    }

    /// The latest end of the first `n` rows of subtitles.
    pub open spec fn subtitles_end(self, n: int) -> int
        decreases n,
    {
        if n <= 0 {
            0
        } else {
            greatest(
                self.subtitles_end(n - 1),
                last_subtitle_end(self.subtitle_tracks[n - 1].clips),
            )
        }
    }

    /// How long the timeline is: until the last clip, subtitle or marked stretch of any
    /// row ends.
    pub open spec fn length(self) -> int {
        greatest(
            greatest(
                self.lanes_end(self.lane_count() as int),
                self.subtitles_end(self.subtitle_tracks.len() as int),
            ),
            last_semantic_end(self.semantic_clips),
        )
    }
}

proof fn lemma_lanes_end(t: TimelineView, i: int, n: int)
    requires
        0 <= i < n,
    ensures
        last_end(t.lane(i)) <= t.lanes_end(n),
    decreases n,
{
    if i < n - 1 {
        lemma_lanes_end(t, i, n - 1);
    }
}

/// The timeline is at least as long as any of its rows of clips.
pub proof fn length_covers_lanes(t: TimelineView, i: int)
    requires
        0 <= i < t.lane_count(),
    ensures
        last_end(t.lane(i)) <= t.length(),
{
    lemma_lanes_end(t, i, t.lane_count() as int);
}

impl Timeline {
    /// How long the timeline is.
    pub fn length(&self) -> (d: Duration)
        requires
            self@.lane_count() <= usize::MAX,
        ensures
            d@ == self@.length(),
    {
        let mut end = Duration::zero();
        let n: usize = self.lane_count();
        let mut i: usize = 0;
        while i < n
            invariant
                i <= n,
                n == self@.lane_count(),
                end@ == self@.lanes_end(i as int),
            decreases n - i,
        {
            let lane = self.lane(i);
            if lane.len() > 0 {
                let c = &lane[lane.len() - 1];
                end = end.max(c.start.saturating_add(c.duration));
            } else {
                end = end.max(Duration::zero());
            }
            i = i + 1;
        }
        let mut subtitle_end = Duration::zero();
        let mut k: usize = 0;
        while k < self.subtitle_tracks.len()
            invariant
                k <= self.subtitle_tracks.len(),
                subtitle_end@ == self@.subtitles_end(k as int),
            decreases self.subtitle_tracks.len() - k,
        {
            let clips = &self.subtitle_tracks[k].clips;
            assert(views(clips@) == self@.subtitle_tracks[k as int].clips);
            if clips.len() > 0 {
                let c = &clips[clips.len() - 1];
                subtitle_end = subtitle_end.max(c.start.saturating_add(c.duration));
            } else {
                subtitle_end = subtitle_end.max(Duration::zero());
            }
            k = k + 1;
        }
        let semantic_end = if self.semantic_clips.len() > 0 {
            let c = &self.semantic_clips[self.semantic_clips.len() - 1];
            c.start.saturating_add(c.duration)
        } else {
            Duration::zero()
        };
        end.max(subtitle_end).max(semantic_end)
    }
}

/// Whole seconds rounded up to a multiple of `step` seconds.
pub open spec fn rounded_up(secs: int, step: int) -> int {
    let s = greatest(step, 1);
    (secs + s - 1) / s * s
}

/// The length in whole seconds, rounded up to a multiple of a step of whole seconds.
pub fn round_up_to_step(value: Duration, step: Duration) -> (rounded: Duration)
    requires
        rounded_up(value@ / 1_000_000_000, step@ / 1_000_000_000) <= u64::MAX,
        value@ <= MAX_NANOS,
        step@ <= MAX_NANOS,
    ensures
        rounded@ == rounded_up(value@ / 1_000_000_000, step@ / 1_000_000_000) * 1_000_000_000,
{
    let v: u128 = value.as_secs();
    let s: u128 = if step.as_secs() > 1 {
        step.as_secs()
    } else {
        1
    };
    let steps: u128 = (v + s - 1) / s;
    assert(steps * s <= v + s - 1) by (nonlinear_arith)
        requires
            steps == (v + s - 1) / (s as int),
            s >= 1,
            v >= 0,
    ;
    let secs: u128 = steps * s;
    Duration { nanos: secs * NANOS_PER_SEC }
}

/// Rounding up gives the first multiple of the step that is not below.
pub proof fn rounding_up_is_least(secs: int, step: int)
    requires
        secs >= 0,
        step >= 1,
    ensures
        rounded_up(secs, step) >= secs,
        rounded_up(secs, step) < secs + step,
        rounded_up(secs, step) % step == 0,
{
    let q = (secs + step - 1) / step;
    assert(q * step <= secs + step - 1 < q * step + step) by (nonlinear_arith)
        requires
            q == (secs + step - 1) / step,
            step >= 1,
    ;
    assert((q * step) % step == 0) by (nonlinear_arith)
        requires
            step >= 1,
    ;
}

impl GlobalState {
    /// How long the timeline is.
    pub fn sequence_duration(&self) -> (d: Duration)
        requires
            self@.timeline.lane_count() <= usize::MAX,
        ensures
            d@ == self@.timeline.length(),
    {
        self.timeline.length()
    }

    /// How long the timeline is shown: a minute at least, and in steps of a quarter of a
    /// minute.
    pub fn timeline_total(&self) -> (d: Duration)
        requires
            self@.timeline.lane_count() <= usize::MAX,
            self@.timeline.length() <= MAX_NANOS - 15 * 1_000_000_000,
        ensures
            d@ == greatest(
                60,
                rounded_up(self@.timeline.length() / 1_000_000_000, 15),
            ) * 1_000_000_000,
    {
        let length = self.sequence_duration();
        proof {
            rounding_up_is_least(length@ / 1_000_000_000, 15);
        }
        let rounded = round_up_to_step(length, Duration::from_secs(15));
        Duration::from_secs(60).max(rounded)
    }

    /// Moves the playhead, at the latest to the end of the timeline.
    pub fn set_playhead(&mut self, t: Duration)
        requires
            old(self)@.timeline.lane_count() <= usize::MAX,
        ensures
            final(self)@ == old(self)@.with_playhead(t@),
    {
        let end = self.sequence_duration();
        self.timeline.playhead = t.min(end);
    }

    /// Moves the playhead to a time of the selected clip, at the latest to its end. Says
    /// whether there is one.
    pub fn selected_clip_set_playhead_to_local_time(&mut self, local_time: Duration) -> (moved:
        bool)
        requires
            old(self)@.timeline.lane_count() <= usize::MAX,
        ensures
            moved == old(self)@.selected_picture() is Some,
            final(self)@ == match old(self)@.selected_picture() {
                Some(c) => old(self)@.with_playhead(
                    least(c.start + least(local_time@, c.duration), MAX_NANOS as int),
                ),
                None => old(self)@,
            },
    {
        let t = match self.selected_picture() {
            Some(c) => c.start.saturating_add(local_time.min(c.duration)),
            None => return false,
        };
        self.set_playhead(t);
        true
    }
}

impl StateView {
    /// The state with the playhead at a time, at the latest at the end of the timeline.
    pub open spec fn with_playhead(self, t: int) -> StateView {
        StateView {
            timeline: TimelineView { playhead: least(t, self.timeline.length()), ..self.timeline },
            ..self
        }
    }
}

// ---------------------------------------------------------------------------
// Selecting what is shown at a time
// ---------------------------------------------------------------------------

/// Whether the clip is shown at the time.
pub open spec fn is_shown(c: ClipView, t: int) -> bool {
    c.start <= t < c.end()
}

/// The id of the first clip of the row that is shown at the time.
pub open spec fn shown_id(lane: Lane, t: int) -> Option<u64> {
    let at = first(lane, |c: ClipView| is_shown(c, t));
    if at < lane.len() {
        Some(lane[at].id)
    } else {
        None
    }
}

/// The id of the first subtitle that is shown at the time.
pub open spec fn shown_subtitle_id(clips: Seq<SubtitleClipView>, t: int) -> Option<u64> {
    let at = first(clips, |c: SubtitleClipView| c.start <= t < c.end());
    if at < clips.len() {
        Some(clips[at].id)
    } else {
        None
    }
}

fn find_shown(lane: &Vec<Clip>, t: Duration) -> (id: Option<u64>)
    ensures
        id == shown_id(views(lane@), t@),
{
    let ghost p = |c: Clip| is_shown(c@, t@);
    let test = |c: &Clip| -> (yes: bool)
        ensures
            yes == is_shown(c@, t@),
    {
        t.nanos >= c.start.nanos && t.nanos - c.start.nanos < c.duration.nanos
    };
    let at = position_by(lane, test, Ghost(p));
    proof {
        lemma_first_views(lane@, p, |c: ClipView| is_shown(c, t@));
    }
    if at < lane.len() {
        Some(lane[at].id)
    } else {
        None
    }
}

fn find_shown_subtitle(clips: &Vec<SubtitleClip>, t: Duration) -> (id: Option<u64>)
    ensures
        id == shown_subtitle_id(views(clips@), t@),
{
    let ghost p = |c: SubtitleClip| c@.start <= t@ < c@.end();
    let test = |c: &SubtitleClip| -> (yes: bool)
        ensures
            yes == (c@.start <= t@ < c@.end()),
    {
        t.nanos >= c.start.nanos && t.nanos - c.start.nanos < c.duration.nanos
    };
    let at = position_by(clips, test, Ghost(p));
    proof {
        lemma_first_views(clips@, p, |c: SubtitleClipView| c.start <= t@ < c.end());
    }
    if at < clips.len() {
        Some(clips[at].id)
    } else {
        None
    }
}

impl StateView {
    /// The state with the clip selected and nothing else, or nothing.
    pub open spec fn with_only_clip(self, id: Option<u64>) -> StateView {
        StateView {
            timeline: self.timeline.nothing_selected(),
            selection: SelectionView::nothing().then_clip(id),
            ..self
        }
    }

    /// The state with the subtitle selected and nothing else, or nothing.
    pub open spec fn with_only_subtitle(self, id: Option<u64>) -> StateView {
        StateView {
            timeline: self.timeline.nothing_selected(),
            selection: SelectionView::nothing().then_subtitle(id),
            ..self
        }
    }
}

impl GlobalState {
    fn select_only(&mut self, id: Option<u64>)
        ensures
            final(self)@ == old(self)@.with_only_clip(id),
    {
        self.timeline.select_nothing();
        self.selection.clear();
        self.selection.take_clip(id);
    }

    fn select_only_subtitle(&mut self, id: Option<u64>)
        ensures
            final(self)@ == old(self)@.with_only_subtitle(id),
    {
        self.timeline.select_nothing();
        self.selection.clear();
        self.selection.take_subtitle(id);
    }

    /// Selects the clip of the main track that is shown at a time, and nothing else.
    pub fn select_v1_clip_at(&mut self, t: Duration)
        ensures
            final(self)@ == old(self)@.with_only_clip(
                shown_id(old(self)@.timeline.v1_clips, t@),
            ),
    {
        let id = find_shown(&self.timeline.v1_clips, t);
        self.select_only(id);
    }

    /// Selects the clip of an audio track that sounds at a time, and nothing else.
    pub fn select_audio_clip_at(&mut self, track_index: usize, t: Duration)
        ensures
            final(self)@ == old(self)@.with_only_clip(
                if track_index < old(self)@.timeline.audio_tracks.len() {
                    shown_id(old(self)@.timeline.audio_tracks[track_index as int].clips, t@)
                } else {
                    None
                },
            ),
    {
        let id = if track_index < self.timeline.audio_tracks.len() {
            find_shown(&self.timeline.audio_tracks[track_index].clips, t)
        } else {
            None
        };
        self.select_only(id);
    }

    /// Selects the clip of a video track above the main one that is shown at a time, and
    /// nothing else.
    pub fn select_video_clip_at(&mut self, track_index: usize, t: Duration)
        ensures
            final(self)@ == old(self)@.with_only_clip(
                if track_index < old(self)@.timeline.video_tracks.len() {
                    shown_id(old(self)@.timeline.video_tracks[track_index as int].clips, t@)
                } else {
                    None
                },
            ),
    {
        let id = if track_index < self.timeline.video_tracks.len() {
            find_shown(&self.timeline.video_tracks[track_index].clips, t)
        } else {
            None
        };
        self.select_only(id);
    }

    /// Selects the subtitle of a track that is shown at a time, and nothing else.
    pub fn select_subtitle_clip_at(&mut self, track_index: usize, t: Duration)
        ensures
            final(self)@ == old(self)@.with_only_subtitle(
                if track_index < old(self)@.timeline.subtitle_tracks.len() {
                    shown_subtitle_id(
                        old(self)@.timeline.subtitle_tracks[track_index as int].clips,
                        t@,
                    )
                } else {
                    None
                },
            ),
    {
        let id = if track_index < self.timeline.subtitle_tracks.len() {
            find_shown_subtitle(&self.timeline.subtitle_tracks[track_index].clips, t)
        } else {
            None
        };
        self.select_only_subtitle(id);
    }
}

} // verus!
