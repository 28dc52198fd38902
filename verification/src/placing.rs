//! New tracks, clips and subtitles.
use crate::clip::{by_start, sort_clips, Clip, ClipView, KeyframesView};
use crate::copying::views;
use crate::effect::{
    LocalMaskLayer, SlideDirection, VideoEffect, DEFAULT_FEATHER, DEFAULT_SHOCK_AMOUNT,
    DEFAULT_ZOOM_AMOUNT, HALF, ONE, QUARTER, ZERO,
};
use crate::lanes::Lane;
use crate::lists::{first, lemma_first_views, position_by};
use crate::modes::V1MoveMode;
use crate::scalar::Scalar;
use crate::state::{GlobalState, SelectionView, StateView};
use crate::subtitle::{SubtitleTrack, SubtitleTrackView};
use crate::text::{
    decimal, decimal_text, joined, lowered, number, owned, parse_number, text_is, text_of,
    to_ascii_lowercase, trim, trimmed,
};
use crate::time::{greatest, least, Duration, MAX_NANOS};
use crate::tracks::{
    AudioTrack, AudioTrackView, Timeline, TimelineView, VideoTrack, VideoTrackView,
};
use vstd::prelude::*;

verus! {

broadcast use crate::copying::group_views;

// ---------------------------------------------------------------------------
// Clips
// ---------------------------------------------------------------------------

impl VideoEffect {
    /// The effects that a new clip has, all neutral.
    pub open spec fn standard() -> Seq<VideoEffect> {
        let zero = Scalar { bits: ZERO };
        let one = Scalar { bits: ONE };
        let half = Scalar { bits: HALF };
        seq![
            VideoEffect::ColorCorrection { brightness: zero, contrast: one, saturation: one },
            VideoEffect::Transform {
                scale: one,
                position_x: zero,
                position_y: zero,
                rotation_deg: zero,
            },
            VideoEffect::Tint { hue: zero, saturation: zero, lightness: zero, alpha: zero },
            VideoEffect::Opacity { alpha: one },
            VideoEffect::GaussianBlur { sigma: zero },
            VideoEffect::LocalMask {
                enabled: false,
                center_x: half,
                center_y: half,
                radius: Scalar { bits: QUARTER },
                feather: Scalar { bits: DEFAULT_FEATHER },
                strength: one,
            },
            VideoEffect::LocalMaskAdjust {
                brightness: zero,
                contrast: one,
                saturation: one,
                opacity: one,
                blur_sigma: zero,
            },
            VideoEffect::Fade { fade_in: zero, fade_out: zero },
            VideoEffect::Dissolve { dissolve_in: zero, dissolve_out: zero },
            VideoEffect::Slide {
                in_direction: SlideDirection::Right,
                out_direction: SlideDirection::Left,
                slide_in: zero,
                slide_out: zero,
            },
            VideoEffect::Zoom {
                zoom_in: zero,
                zoom_out: zero,
                zoom_amount: Scalar { bits: DEFAULT_ZOOM_AMOUNT },
            },
            VideoEffect::ShockZoom {
                shock_in: zero,
                shock_out: zero,
                shock_amount: Scalar { bits: DEFAULT_SHOCK_AMOUNT },
            },
        ]
    }

    /// The effects that a new clip has, all neutral.
    pub fn standard_set() -> (effects: Vec<Self>)
        ensures
            effects@ == VideoEffect::standard(),
    {
        let zero = Scalar { bits: ZERO };
        let one = Scalar { bits: ONE };
        let half = Scalar { bits: HALF };
        let effects = vec![
            VideoEffect::ColorCorrection { brightness: zero, contrast: one, saturation: one },
            VideoEffect::Transform {
                scale: one,
                position_x: zero,
                position_y: zero,
                rotation_deg: zero,
            },
            VideoEffect::Tint { hue: zero, saturation: zero, lightness: zero, alpha: zero },
            VideoEffect::Opacity { alpha: one },
            VideoEffect::GaussianBlur { sigma: zero },
            VideoEffect::LocalMask {
                enabled: false,
                center_x: half,
                center_y: half,
                radius: Scalar { bits: QUARTER },
                feather: Scalar { bits: DEFAULT_FEATHER },
                strength: one,
            },
            VideoEffect::LocalMaskAdjust {
                brightness: zero,
                contrast: one,
                saturation: one,
                opacity: one,
                blur_sigma: zero,
            },
            VideoEffect::Fade { fade_in: zero, fade_out: zero },
            VideoEffect::Dissolve { dissolve_in: zero, dissolve_out: zero },
            VideoEffect::Slide {
                in_direction: SlideDirection::Right,
                out_direction: SlideDirection::Left,
                slide_in: zero,
                slide_out: zero,
            },
            VideoEffect::Zoom {
                zoom_in: zero,
                zoom_out: zero,
                zoom_amount: Scalar { bits: DEFAULT_ZOOM_AMOUNT },
            },
            VideoEffect::ShockZoom {
                shock_in: zero,
                shock_out: zero,
                shock_amount: Scalar { bits: DEFAULT_SHOCK_AMOUNT },
            },
        ];
        assert(effects@ =~= VideoEffect::standard());
        effects
    }
}

impl KeyframesView {
    /// No keyframes.
    pub open spec fn none() -> KeyframesView {
        KeyframesView {
            pos_x: Seq::empty(),
            pos_y: Seq::empty(),
            scale: Seq::empty(),
            rotation: Seq::empty(),
            brightness: Seq::empty(),
            contrast: Seq::empty(),
            saturation: Seq::empty(),
            opacity: Seq::empty(),
            blur: Seq::empty(),
        }
    }
}

/// A clip that shows the whole file.
pub open spec fn new_clip(
    id: u64,
    label: Seq<char>,
    path: Seq<char>,
    start: int,
    duration: int,
    group: Option<u64>,
) -> ClipView {
    ClipView {
        id,
        label,
        file_path: path,
        start,
        duration,
        source_in: 0,
        media_duration: duration,
        link_group_id: group,
        audio_gain_db: Scalar { bits: ZERO },
        dissolve_trim_in: 0,
        dissolve_trim_out: 0,
        video_effects: VideoEffect::standard(),
        local_mask_layers: seq![LocalMaskLayer::neutral()],
        keyframes: KeyframesView::none(),
    }
}

/// A clip that shows the whole file.
pub fn make_clip(
    id: u64,
    label: String,
    path: &String,
    start: Duration,
    duration: Duration,
    group: Option<u64>,
) -> (clip: Clip)
    ensures
        clip@ == new_clip(id, label@, path@, start@, duration@, group),
{
    let layers = vec![LocalMaskLayer::default()];
    assert(layers@ =~= seq![LocalMaskLayer::neutral()]);
    Clip {
        id,
        label,
        file_path: path.clone(),
        start,
        duration,
        source_in: Duration::zero(),
        media_duration: duration,
        link_group_id: group,
        audio_gain_db: Scalar { bits: ZERO },
        dissolve_trim_in: Duration::zero(),
        dissolve_trim_out: Duration::zero(),
        video_effects: VideoEffect::standard_set(),
        local_mask_layers: layers,
        pos_x_keyframes: Vec::new(),
        pos_y_keyframes: Vec::new(),
        scale_keyframes: Vec::new(),
        rotation_keyframes: Vec::new(),
        brightness_keyframes: Vec::new(),
        contrast_keyframes: Vec::new(),
        saturation_keyframes: Vec::new(),
        opacity_keyframes: Vec::new(),
        blur_keyframes: Vec::new(),
    }
}

/// The number after `n`; the largest has none.
pub open spec fn next_number(n: u64) -> u64 {
    if n == u64::MAX {
        n
    } else {
        (n + 1) as u64
    }
}

/// Hands out the next id.
pub fn take_id(next_id: &mut u64) -> (id: u64)
    ensures
        id == *old(next_id),
        *final(next_id) == next_number(id),
{
    let id: u64 = *next_id;
    if id < u64::MAX {
        *next_id = id + 1;
    }
    id
}

// ---------------------------------------------------------------------------
// Tracks
// ---------------------------------------------------------------------------

/// Whether the name is that of the first audio track.
pub open spec fn is_a1(name: Seq<char>) -> bool {
    lowered(trimmed(name)) == lowered("A1"@)
}

/// An audio track without clips.
pub open spec fn empty_audio_track(name: Seq<char>) -> AudioTrackView {
    AudioTrackView { name, clips: Seq::empty(), gain_db: Scalar { bits: 0 } }
}

/// The place of the audio track A1.
pub open spec fn a1_place(tracks: Seq<AudioTrackView>) -> int {
    first(tracks, |t: AudioTrackView| is_a1(t.name))
}

/// The number of an audio track in its name; 0 where the name has none.
pub open spec fn audio_number(name: Seq<char>) -> int {
    let t = trimmed(name);
    if t.len() > 0 && t[0] == 'A' {
        match number(t.drop_first(), usize::MAX as int) {
            Some(n) => n,
            None => 0,
        }
    } else {
        0
    }
}

/// The largest number of an audio track.
pub open spec fn largest_audio_number(tracks: Seq<AudioTrackView>) -> int
    decreases tracks.len(),
{
    if tracks.len() == 0 {
        0
    } else {
        greatest(largest_audio_number(tracks.drop_last()), audio_number(tracks.last().name))
    }
}

impl TimelineView {
    /// The timeline with the audio track A1 in front of the others; a new one where
    /// there was none.
    #[verifier::opaque]
    pub open spec fn with_primary_audio(self) -> TimelineView {
        let at = a1_place(self.audio_tracks);
        TimelineView {
            audio_tracks: if at < self.audio_tracks.len() {
                self.audio_tracks.remove(at).insert(0, self.audio_tracks[at])
            } else {
                self.audio_tracks.insert(0, empty_audio_track("A1"@))
            },
            ..self
        }
    }

    /// The name of a new audio track: one number above the largest.
    pub open spec fn new_audio_name(self) -> Seq<char> {
        "A"@ + decimal(least(largest_audio_number(self.audio_tracks) + 1, usize::MAX as int))
    }
}

impl Timeline {
    fn ensure_primary_audio_track(&mut self)
        ensures
            final(self)@ == old(self)@.with_primary_audio(),
            final(self)@.audio_tracks.len() > 0,
            final(self)@.lane_count() <= old(self)@.lane_count() + 1,
    {
        reveal(TimelineView::with_primary_audio);
        let ghost p = |t: AudioTrack| is_a1(t@.name);
        let test = |t: &AudioTrack| -> (yes: bool)
            ensures
                yes == is_a1(t@.name),
        {
            let name = to_ascii_lowercase(trim(t.name.as_str()).as_str());
            let wanted = to_ascii_lowercase("A1");
            text_is(name.as_str(), wanted.as_str())
        };
        let at = position_by(&self.audio_tracks, test, Ghost(p));
        proof {
            lemma_first_views(self.audio_tracks@, p, |t: AudioTrackView| is_a1(t.name));
        }
        if at < self.audio_tracks.len() {
            let a1 = self.audio_tracks.remove(at);
            self.audio_tracks.insert(0, a1);
        } else {
            self.audio_tracks.insert(0, AudioTrack::new(owned("A1")));
        }
    }

    fn next_audio_track_number(&self) -> (n: usize)
        ensures
            n == least(largest_audio_number(self@.audio_tracks) + 1, usize::MAX as int),
    {
        let mut largest: usize = 0;
        let ghost tracks = self@.audio_tracks;
        let mut i: usize = 0;
        while i < self.audio_tracks.len()
            invariant
                i <= self.audio_tracks.len(),
                tracks == self@.audio_tracks,
                largest == largest_audio_number(tracks.take(i as int)),
            decreases self.audio_tracks.len() - i,
        {
            assert(tracks.take(i + 1).drop_last() =~= tracks.take(i as int));
            let n = audio_number_of(&self.audio_tracks[i].name);
            if n > largest {
                largest = n;
            }
            i = i + 1;
        }
        assert(tracks.take(i as int) =~= tracks);
        if largest == usize::MAX {
            largest
        } else {
            largest + 1
        }
    }
}

fn audio_number_of(name: &String) -> (n: usize)
    ensures
        n == audio_number(name@),
{
    let t = trim(name.as_str());
    let chars = crate::text::chars_of(t.as_str());
    if chars.len() > 0 && chars[0] == 'A' {
        let rest = text_of(&chars, 1, chars.len());
        assert(rest@ =~= t@.drop_first());
        match parse_number(rest.as_str(), usize::MAX as u64) {
            Some(n) => n as usize,
            None => 0,
        }
    } else {
        0
    }
}

impl GlobalState {
    /// Adds an audio track.
    pub fn add_new_audio_track(&mut self)
        ensures
            ({
                let s = old(self)@.saved(false);
                final(self)@ == StateView {
                    timeline: TimelineView {
                        audio_tracks: s.timeline.audio_tracks.push(
                            empty_audio_track(s.timeline.new_audio_name()),
                        ),
                        ..s.timeline
                    },
                    ..s
                }
            }),
    {
        self.save_for_undo();
        let n = self.timeline.next_audio_track_number();
        let name = joined("A", decimal_text(n as u64).as_str());
        self.timeline.audio_tracks.push(AudioTrack::new(name));
    }

    /// Adds a video track above the others.
    pub fn add_new_video_track(&mut self)
        requires
            old(self)@.timeline.video_tracks.len() + 2 <= usize::MAX,
        ensures
            ({
                let s = old(self)@.saved(false);
                final(self)@ == StateView {
                    timeline: TimelineView {
                        video_tracks: s.timeline.video_tracks.push(
                            VideoTrackView {
                                name: "V"@ + decimal((s.timeline.video_tracks.len() + 2) as int),
                                clips: Seq::empty(),
                            },
                        ),
                        ..s.timeline
                    },
                    ..s
                }
            }),
    {
        self.save_for_undo();
        let n: usize = self.timeline.video_tracks.len() + 2;
        let name = joined("V", decimal_text(n as u64).as_str());
        self.timeline.video_tracks.push(VideoTrack::new(name));
    }

    /// Adds a subtitle track.
    pub fn add_new_subtitle_track(&mut self)
        requires
            old(self)@.timeline.subtitle_tracks.len() + 1 <= usize::MAX,
        ensures
            ({
                let s = old(self)@.saved(false);
                final(self)@ == StateView {
                    timeline: TimelineView {
                        subtitle_tracks: s.timeline.subtitle_tracks.push(
                            SubtitleTrackView {
                                name: "S"@ + decimal((s.timeline.subtitle_tracks.len() + 1) as int),
                                clips: Seq::empty(),
                            },
                        ),
                        ..s.timeline
                    },
                    ..s
                }
            }),
    {
        self.save_for_undo();
        let n: usize = self.timeline.subtitle_tracks.len() + 1;
        let name = joined("S", decimal_text(n as u64).as_str());
        self.timeline.subtitle_tracks.push(SubtitleTrack::new(name));
    }
}

// ---------------------------------------------------------------------------
// The active source on the tracks
// ---------------------------------------------------------------------------

/// The time at which the last of the clips ends.
pub open spec fn lane_end(clips: Lane) -> int
    decreases clips.len(),
{
    if clips.len() == 0 {
        0
    } else {
        greatest(lane_end(clips.drop_last()), least(clips.last().end(), MAX_NANOS as int))
    }
}

/// No clip ends after the end of the row.
pub proof fn lane_end_is_last(clips: Lane, i: int)
    requires
        0 <= i < clips.len(),
        clips[i].end() <= MAX_NANOS,
    ensures
        clips[i].end() <= lane_end(clips),
    decreases clips.len(),
{
    if i < clips.len() - 1 {
        lane_end_is_last(clips.drop_last(), i);
    }
}

/// The time at which the last of the clips ends.
pub fn find_lane_end(clips: &Vec<Clip>) -> (end: Duration)
    ensures
        end@ == lane_end(views(clips@)),
{
    let ghost all = views(clips@);
    let mut end = Duration::zero();
    let mut i: usize = 0;
    while i < clips.len()
        invariant
            i <= clips.len(),
            all == views(clips@),
            end@ == lane_end(all.take(i as int)),
        decreases clips.len() - i,
    {
        assert(all.take(i + 1).drop_last() =~= all.take(i as int));
        end = end.max(clips[i].start.saturating_add(clips[i].duration));
        i = i + 1;
    }
    assert(all.take(i as int) =~= all);
    end
}

/// What a new clip is made of.
pub ghost struct SourceView {
    pub name: Seq<char>,
    pub path: Seq<char>,
    pub duration: int,
}

impl TimelineView {
    /// Where the source goes on the main track: behind the last clip where the track
    /// is magnetic, else at the playhead.
    pub open spec fn insert_time(self, mode: V1MoveMode) -> int {
        if mode == V1MoveMode::Magnetic {
            lane_end(self.v1_clips)
        } else {
            self.playhead
        }
    }

    /// The timeline with the source on the main track and its sound, linked with it, on
    /// the first audio track. A magnetic track takes the playhead along.
    #[verifier::opaque]
    pub open spec fn source_inserted(
        self,
        source: SourceView,
        mode: V1MoveMode,
        next_id: u64,
    ) -> TimelineView {
        let t = self.with_primary_audio();
        let start = self.insert_time(mode);
        let group = Some(t.free_group());
        let picture = new_clip(next_id, source.name, source.path, start, source.duration, group);
        let sound = new_clip(
            next_number(next_id),
            "(Audio) "@ + source.name,
            source.path,
            start,
            source.duration,
            group,
        );
        let a1 = t.audio_tracks[0];
        TimelineView {
            v1_clips: by_start(t.v1_clips.push(picture)),
            audio_tracks: t.audio_tracks.update(0, a1.with_clips(by_start(a1.clips.push(sound)))),
            playhead: if mode == V1MoveMode::Magnetic {
                start
            } else {
                t.playhead
            },
            ..t
        }
    }

    /// The timeline with a new clip at the playhead in a row.
    #[verifier::opaque]
    pub open spec fn clip_dropped(self, lane: int, clip: ClipView) -> TimelineView {
        self.with_lane(lane, by_start(self.lane(lane).push(clip)))
    }
}

impl Timeline {
    fn insert_source(
        &mut self,
        name: &String,
        path: &String,
        duration: Duration,
        mode: V1MoveMode,
        next_id: &mut u64,
    )
        requires
            old(self)@.lane_count() < usize::MAX,
        ensures
            final(self)@ == old(self)@.source_inserted(
                SourceView { name: name@, path: path@, duration: duration@ },
                mode,
                *old(next_id),
            ),
            *final(next_id) == next_number(next_number(*old(next_id))),
    {
        reveal(TimelineView::source_inserted);
        proof {
            lemma_primary_audio_keeps(self@);
        }
        self.ensure_primary_audio_track();
        let start = if mode == V1MoveMode::Magnetic {
            find_lane_end(&self.v1_clips)
        } else {
            self.playhead
        };
        let group = Some(self.allocate_next_link_group_id());
        let picture_id = take_id(next_id);
        self.v1_clips.push(make_clip(picture_id, name.clone(), path, start, duration, group));
        sort_clips(&mut self.v1_clips);
        let sound_id = take_id(next_id);
        let ghost before = self.audio_tracks@;
        let label = joined("(Audio) ", name.as_str());
        self.audio_tracks[0].clips.push(make_clip(sound_id, label, path, start, duration, group));
        sort_clips(&mut self.audio_tracks[0].clips);
        assert(self.audio_tracks@ =~= before.update(0, self.audio_tracks@[0]));
        if mode == V1MoveMode::Magnetic {
            self.playhead = start;
        }
    }

    fn drop_clip(&mut self, lane_index: usize, clip: Clip)
        requires
            lane_index < old(self)@.lane_count(),
        ensures
            final(self)@ == old(self)@.clip_dropped(lane_index as int, clip@),
    {
        reveal(TimelineView::clip_dropped);
        let lane = self.lane_mut(lane_index);
        lane.push(clip);
        sort_clips(lane);
    }
}

proof fn lemma_primary_audio_keeps(t: TimelineView)
    ensures
        t.with_primary_audio().v1_clips == t.v1_clips,
        t.with_primary_audio().playhead == t.playhead,
{
    reveal(TimelineView::with_primary_audio);
}

impl StateView {
    /// The active source, shown for the given time.
    pub open spec fn source(self, duration: int) -> SourceView {
        SourceView {
            name: self.media.active_source_name,
            path: self.media.active_source_path,
            duration,
        }
    }

    /// The state with the active source on the main track; it is selected.
    pub open spec fn source_on_v1(self, duration: int) -> StateView {
        let s = self.saved(false);
        if s.media.active_source_path.len() == 0 {
            s
        } else {
            StateView {
                timeline: s.timeline.source_inserted(
                    s.source(duration),
                    s.v1_move_mode,
                    s.next_clip_id,
                ),
                next_clip_id: next_number(next_number(s.next_clip_id)),
                selection: SelectionView::only_clip(s.next_clip_id),
                ..s
            }
        }
    }

    /// The state with the active source at the playhead in a row; it is selected.
    pub open spec fn source_in_lane(self, lane: int, prefix: Seq<char>, duration: int) -> StateView {
        if self.media.active_source_path.len() == 0 {
            self
        } else {
            let s = self.saved(false);
            if lane >= s.timeline.lane_count() {
                s
            } else {
                StateView {
                    timeline: s.timeline.clip_dropped(
                        lane,
                        new_clip(
                            s.next_clip_id,
                            prefix + s.media.active_source_name,
                            s.media.active_source_path,
                            s.timeline.playhead,
                            duration,
                            None,
                        ),
                    ),
                    next_clip_id: (s.next_clip_id + 1) as u64,
                    selection: SelectionView::only_clip(s.next_clip_id),
                    ..s
                }
            }
        }
    }
}

impl GlobalState {
    /// Puts the active source on the main track, with its sound on the first audio
    /// track.
    pub fn insert_active_source_v1(&mut self, insert_duration: Duration)
        requires
            old(self)@.timeline.lane_count() < usize::MAX,
        ensures
            final(self)@ == old(self)@.source_on_v1(insert_duration@),
    {
        self.save_for_undo();
        if self.media.active_source_path.as_str().unicode_len() == 0 {
            return;
        }
        let id: u64 = self.next_clip_id;
        self.timeline.insert_source(
            &self.media.active_source_name,
            &self.media.active_source_path,
            insert_duration,
            self.v1_move_mode,
            &mut self.next_clip_id,
        );
        self.selection.take_clip(Some(id));
    }

    fn insert_source_in_lane(&mut self, lane: usize, prefix: &str, insert_duration: Duration)
        requires
            old(self)@.timeline.lane_count() <= usize::MAX,
            old(self)@.next_clip_id < u64::MAX,
            old(self)@.media.active_source_path.len() > 0,
        ensures
            final(self)@ == old(self)@.source_in_lane(lane as int, prefix@, insert_duration@),
    {
        self.save_for_undo();
        if lane >= self.timeline.lane_count() {
            return;
        }
        let id: u64 = self.next_clip_id;
        self.next_clip_id = id + 1;
        let label = joined(prefix, self.media.active_source_name.as_str());
        let clip = make_clip(
            id,
            label,
            &self.media.active_source_path,
            self.timeline.playhead,
            insert_duration,
            None,
        );
        self.timeline.drop_clip(lane, clip);
        self.selection.take_clip(Some(id));
    }

    /// Puts the sound of the active source at the playhead on an audio track.
    pub fn ripple_insert_active_source_audio(
        &mut self,
        track_index: usize,
        insert_duration: Duration,
    )
        requires
            old(self)@.timeline.lane_count() <= usize::MAX,
            old(self)@.next_clip_id < u64::MAX,
        ensures
            final(self)@ == old(self)@.source_in_lane(
                old(self)@.timeline.audio_lane(track_index as int),
                "(Audio) "@,
                insert_duration@,
            ),
    {
        if self.media.active_source_path.as_str().unicode_len() == 0 {
            return;
        }
        let lane = self.timeline.audio_lane(track_index);
        self.insert_source_in_lane(lane, "(Audio) ", insert_duration);
    }

    /// Puts the picture of the active source at the playhead on a video track above the
    /// main one.
    pub fn ripple_insert_active_source_video(
        &mut self,
        track_index: usize,
        insert_duration: Duration,
    )
        requires
            old(self)@.timeline.lane_count() <= usize::MAX,
            old(self)@.next_clip_id < u64::MAX,
        ensures
            final(self)@ == old(self)@.source_in_lane(
                old(self)@.timeline.video_lane(track_index as int),
                "(Video) "@,
                insert_duration@,
            ),
    {
        if self.media.active_source_path.as_str().unicode_len() == 0 {
            return;
        }
        let lane = self.timeline.video_lane(track_index);
        self.insert_source_in_lane(lane, "(Video) ", insert_duration);
    }
}

/// A source put on the magnetic main track starts where the last clip ended, so it
/// covers none of them.
pub proof fn magnetic_insert_does_not_overlap(t: TimelineView, i: int)
    requires
        0 <= i < t.v1_clips.len(),
        t.v1_clips[i].end() <= MAX_NANOS,
    ensures
        t.v1_clips[i].end() <= t.insert_time(V1MoveMode::Magnetic),
{
    lane_end_is_last(t.v1_clips, i);
}

} // verus!
