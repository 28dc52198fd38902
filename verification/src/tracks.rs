//! Tracks, snapshots of the timeline and their history.
use crate::clip::{Clip, ClipView};
use crate::copying::{copy_all, copy_optional, copy_text, optional, views, Duplicate};
use crate::json::{JsonValue, JsonView};
use crate::layer::{LayerColorBlurEffects, LayerEffectClip, LayerEffectClipView};
use crate::order::Timed;
use crate::scalar::Scalar;
use crate::subtitle::{SubtitleGroupTransform, SubtitleTrack, SubtitleTrackView};
use crate::time::{Duration, MAX_NANOS};
use std::collections::HashMap;
use vstd::prelude::*;

verus! {

broadcast use crate::copying::group_views;

/// A row of sounding clips.
#[derive(Debug)]
pub struct AudioTrack {
    pub name: String,
    pub clips: Vec<Clip>,
    pub gain_db: Scalar,
}

/// What a row of sounding clips holds.
pub ghost struct AudioTrackView {
    pub name: Seq<char>,
    pub clips: Seq<ClipView>,
    pub gain_db: Scalar,
}

impl View for AudioTrack {
    type V = AudioTrackView;

    open spec fn view(&self) -> AudioTrackView {
        AudioTrackView {
            name: self.name@,
            clips: views(self.clips@),
            gain_db: self.gain_db,
        }
    }
}

impl Clone for AudioTrack {
    fn clone(&self) -> (copy: Self)
        ensures
            copy@ == self@,
    {
        AudioTrack {
            name: self.name.clone(),
            clips: copy_all(&self.clips),
            gain_db: self.gain_db,
        }
    }
}

impl Duplicate for AudioTrack {
    fn duplicate(&self) -> (copy: Self) {
        self.clone()
    }
}

/// A row of pictures above the main one.
#[derive(Debug)]
pub struct VideoTrack {
    pub name: String,
    pub clips: Vec<Clip>,
}

/// What a row of pictures holds.
pub ghost struct VideoTrackView {
    pub name: Seq<char>,
    pub clips: Seq<ClipView>,
}

impl View for VideoTrack {
    type V = VideoTrackView;

    open spec fn view(&self) -> VideoTrackView {
        VideoTrackView {
            name: self.name@,
            clips: views(self.clips@),
        }
    }
}

impl Clone for VideoTrack {
    fn clone(&self) -> (copy: Self)
        ensures
            copy@ == self@,
    {
        VideoTrack {
            name: self.name.clone(),
            clips: copy_all(&self.clips),
        }
    }
}

impl Duplicate for VideoTrack {
    fn duplicate(&self) -> (copy: Self) {
        self.clone()
    }
}

/// A marked stretch of the timeline with a request for generated media.
#[derive(Debug)]
pub struct SemanticClip {
    pub id: u64,
    pub start: Duration,
    pub duration: Duration,
    /// What kind of media is wanted.
    pub semantic_type: String,
    pub label: String,
    /// The request.
    pub prompt_schema: JsonValue,
}

/// What a marked stretch holds.
pub ghost struct SemanticClipView {
    pub id: u64,
    pub start: int,
    pub duration: int,
    pub semantic_type: Seq<char>,
    pub label: Seq<char>,
    pub prompt_schema: JsonView,
}

impl View for SemanticClip {
    type V = SemanticClipView;

    open spec fn view(&self) -> SemanticClipView {
        SemanticClipView {
            id: self.id,
            start: self.start@,
            duration: self.duration@,
            semantic_type: self.semantic_type@,
            label: self.label@,
            prompt_schema: self.prompt_schema@,
        }
    }
}

impl Clone for SemanticClip {
    fn clone(&self) -> (copy: Self)
        ensures
            copy@ == self@,
    {
        SemanticClip {
            id: self.id,
            start: self.start,
            duration: self.duration,
            semantic_type: self.semantic_type.clone(),
            label: self.label.clone(),
            prompt_schema: self.prompt_schema.clone(),
        }
    }
}

impl Duplicate for SemanticClip {
    fn duplicate(&self) -> (copy: Self) {
        self.clone()
    }
}

/// A switch of one track. Tracks are named `v1`, `audio:<index>`, `video:<index>` and
/// `subtitle:<index>`.
#[derive(Debug)]
pub struct TrackFlag {
    pub track: String,
    pub on: bool,
}

/// What a switch holds.
pub ghost struct TrackFlagView {
    pub track: Seq<char>,
    pub on: bool,
}

impl View for TrackFlag {
    type V = TrackFlagView;

    open spec fn view(&self) -> TrackFlagView {
        TrackFlagView {
            track: self.track@,
            on: self.on,
        }
    }
}

impl Clone for TrackFlag {
    fn clone(&self) -> (copy: Self)
        ensures
            copy@ == self@,
    {
        TrackFlag {
            track: self.track.clone(),
            on: self.on,
        }
    }
}

impl Duplicate for TrackFlag {
    fn duplicate(&self) -> (copy: Self) {
        self.clone()
    }
}

/// A file that clips can be made from.
#[derive(Debug)]
pub struct MediaPoolItem {
    pub path: String,
    pub name: String,
    pub duration: Duration,
    pub preview_jpeg_base64: Option<String>,
}

/// What an entry of the media pool holds.
pub ghost struct MediaPoolItemView {
    pub path: Seq<char>,
    pub name: Seq<char>,
    pub duration: int,
    pub preview_jpeg_base64: Option<Seq<char>>,
}

impl View for MediaPoolItem {
    type V = MediaPoolItemView;

    open spec fn view(&self) -> MediaPoolItemView {
        MediaPoolItemView {
            path: self.path@,
            name: self.name@,
            duration: self.duration@,
            preview_jpeg_base64: optional(self.preview_jpeg_base64),
        }
    }
}

impl Clone for MediaPoolItem {
    fn clone(&self) -> (copy: Self)
        ensures
            copy@ == self@,
    {
        MediaPoolItem {
            path: self.path.clone(),
            name: self.name.clone(),
            duration: self.duration,
            preview_jpeg_base64: copy_text(&self.preview_jpeg_base64),
        }
    }
}

impl Duplicate for MediaPoolItem {
    fn duplicate(&self) -> (copy: Self) {
        self.clone()
    }
}

/// The media pool and the source that is shown.
#[derive(Debug)]
pub struct MediaPoolUndoState {
    pub active_source_path: String,
    pub active_source_name: String,
    pub active_source_duration: Duration,
    pub media_pool: Vec<MediaPoolItem>,
    pub pending_media_pool_path: Option<String>,
}

/// What the media pool holds.
pub ghost struct MediaPoolUndoStateView {
    pub active_source_path: Seq<char>,
    pub active_source_name: Seq<char>,
    pub active_source_duration: int,
    pub media_pool: Seq<MediaPoolItemView>,
    pub pending_media_pool_path: Option<Seq<char>>,
}

impl View for MediaPoolUndoState {
    type V = MediaPoolUndoStateView;

    open spec fn view(&self) -> MediaPoolUndoStateView {
        MediaPoolUndoStateView {
            active_source_path: self.active_source_path@,
            active_source_name: self.active_source_name@,
            active_source_duration: self.active_source_duration@,
            media_pool: views(self.media_pool@),
            pending_media_pool_path: optional(self.pending_media_pool_path),
        }
    }
}

impl Clone for MediaPoolUndoState {
    fn clone(&self) -> (copy: Self)
        ensures
            copy@ == self@,
    {
        MediaPoolUndoState {
            active_source_path: self.active_source_path.clone(),
            active_source_name: self.active_source_name.clone(),
            active_source_duration: self.active_source_duration,
            media_pool: copy_all(&self.media_pool),
            pending_media_pool_path: copy_text(&self.pending_media_pool_path),
        }
    }
}

impl Duplicate for MediaPoolUndoState {
    fn duplicate(&self) -> (copy: Self) {
        self.clone()
    }
}

/// The timeline: all that an edit can be taken back from.
#[derive(Debug)]
pub struct Timeline {
    pub v1_clips: Vec<Clip>,
    pub audio_tracks: Vec<AudioTrack>,
    pub video_tracks: Vec<VideoTrack>,
    pub subtitle_tracks: Vec<SubtitleTrack>,
    pub semantic_clips: Vec<SemanticClip>,
    pub track_visibility: Vec<TrackFlag>,
    pub track_lock: Vec<TrackFlag>,
    pub track_mute: Vec<TrackFlag>,
    pub subtitle_groups: HashMap<u64, SubtitleGroupTransform>,
    pub next_subtitle_group_id: u64,
    pub playhead: Duration,
    pub semantic_mark_start: Option<Duration>,
    pub layer_color_blur_effects: LayerColorBlurEffects,
    pub layer_effect_clips: Vec<LayerEffectClip>,
    pub selected_layer_effect_clip_id: Option<u64>,
    pub selected_semantic_clip_id: Option<u64>,
}

/// What the timeline holds.
pub ghost struct TimelineView {
    pub v1_clips: Seq<ClipView>,
    pub audio_tracks: Seq<AudioTrackView>,
    pub video_tracks: Seq<VideoTrackView>,
    pub subtitle_tracks: Seq<SubtitleTrackView>,
    pub semantic_clips: Seq<SemanticClipView>,
    pub track_visibility: Seq<TrackFlagView>,
    pub track_lock: Seq<TrackFlagView>,
    pub track_mute: Seq<TrackFlagView>,
    pub subtitle_groups: Map<u64, SubtitleGroupTransform>,
    pub next_subtitle_group_id: u64,
    pub playhead: int,
    pub semantic_mark_start: Option<Duration>,
    pub layer_color_blur_effects: LayerColorBlurEffects,
    pub layer_effect_clips: Seq<LayerEffectClipView>,
    pub selected_layer_effect_clip_id: Option<u64>,
    pub selected_semantic_clip_id: Option<u64>,
}

impl View for Timeline {
    type V = TimelineView;

    open spec fn view(&self) -> TimelineView {
        TimelineView {
            v1_clips: views(self.v1_clips@),
            audio_tracks: views(self.audio_tracks@),
            video_tracks: views(self.video_tracks@),
            subtitle_tracks: views(self.subtitle_tracks@),
            semantic_clips: views(self.semantic_clips@),
            track_visibility: views(self.track_visibility@),
            track_lock: views(self.track_lock@),
            track_mute: views(self.track_mute@),
            subtitle_groups: self.subtitle_groups@,
            next_subtitle_group_id: self.next_subtitle_group_id,
            playhead: self.playhead@,
            semantic_mark_start: self.semantic_mark_start,
            layer_color_blur_effects: self.layer_color_blur_effects,
            layer_effect_clips: views(self.layer_effect_clips@),
            selected_layer_effect_clip_id: self.selected_layer_effect_clip_id,
            selected_semantic_clip_id: self.selected_semantic_clip_id,
        }
    }
}

impl Clone for Timeline {
    fn clone(&self) -> (copy: Self)
        ensures
            copy@ == self@,
    {
        Timeline {
            v1_clips: copy_all(&self.v1_clips),
            audio_tracks: copy_all(&self.audio_tracks),
            video_tracks: copy_all(&self.video_tracks),
            subtitle_tracks: copy_all(&self.subtitle_tracks),
            semantic_clips: copy_all(&self.semantic_clips),
            track_visibility: copy_all(&self.track_visibility),
            track_lock: copy_all(&self.track_lock),
            track_mute: copy_all(&self.track_mute),
            subtitle_groups: self.subtitle_groups.clone(),
            next_subtitle_group_id: self.next_subtitle_group_id,
            playhead: self.playhead,
            semantic_mark_start: self.semantic_mark_start,
            layer_color_blur_effects: self.layer_color_blur_effects,
            layer_effect_clips: copy_all(&self.layer_effect_clips),
            selected_layer_effect_clip_id: self.selected_layer_effect_clip_id,
            selected_semantic_clip_id: self.selected_semantic_clip_id,
        }
    }
}

impl Duplicate for Timeline {
    fn duplicate(&self) -> (copy: Self) {
        self.clone()
    }
}

/// A snapshot of the timeline, and of the media pool where an edit changed that too.
#[derive(Debug)]
pub struct TimelineState {
    pub timeline: Timeline,
    pub media_pool_state: Option<MediaPoolUndoState>,
}

/// What a snapshot holds.
pub ghost struct SnapshotView {
    pub timeline: TimelineView,
    pub media_pool: Option<MediaPoolUndoStateView>,
}

impl View for TimelineState {
    type V = SnapshotView;

    open spec fn view(&self) -> SnapshotView {
        SnapshotView { timeline: self.timeline@, media_pool: optional(self.media_pool_state) }
    }
}

impl Clone for TimelineState {
    fn clone(&self) -> (copy: Self)
        ensures
            copy@ == self@,
    {
        TimelineState {
            timeline: self.timeline.clone(),
            media_pool_state: copy_optional(&self.media_pool_state),
        }
    }
}

impl SemanticClipView {
    /// The time at which the stretch ends.
    pub open spec fn end(self) -> int {
        self.start + self.duration
    }
}

impl Timed for SemanticClip {
    open spec fn at(&self) -> int {
        self.start@
    }

    fn time(&self) -> (t: Duration) {
        self.start
    }
}

impl SemanticClip {
    /// The time at which the stretch ends.
    pub fn end(&self) -> (t: Duration)
        requires
            self@.end() <= MAX_NANOS,
        ensures
            t@ == self@.end(),
    {
        self.start.plus(self.duration)
    }
}

impl AudioTrack {
    /// A row without clips, at neutral gain.
    pub fn new(name: String) -> (track: Self)
        ensures
            track@ == (AudioTrackView {
                name: name@,
                clips: Seq::empty(),
                gain_db: Scalar { bits: 0 },
            }),
    {
        let track = AudioTrack { name, clips: Vec::new(), gain_db: Scalar { bits: 0 } };
        assert(track@.clips =~= Seq::empty());
        track
    }
}

impl VideoTrack {
    /// A row without clips.
    pub fn new(name: String) -> (track: Self)
        ensures
            track@ == (VideoTrackView { name: name@, clips: Seq::empty() }),
    {
        let track = VideoTrack { name, clips: Vec::new() };
        assert(track@.clips =~= Seq::empty());
        track
    }
}

/// How many snapshots the history keeps.
pub const UNDO_LIMIT: usize = 50;

/// The snapshots to go back to, and those to go forward to again; the nearest of
/// each is the last.
#[derive(Debug)]
pub struct UndoManager {
    past: Vec<TimelineState>,
    future: Vec<TimelineState>,
}

/// What the history holds.
#[verifier::ext_equal]
pub ghost struct UndoView {
    pub past: Seq<SnapshotView>,
    pub future: Seq<SnapshotView>,
}

impl UndoView {
    /// The history after a new edit: nothing to go forward to, and at most
    /// `UNDO_LIMIT` snapshots, the oldest forgotten first.
    pub open spec fn pushed(self, state: SnapshotView) -> UndoView {
        let longer = self.past.push(state);
        UndoView {
            past: if longer.len() > UNDO_LIMIT {
                longer.drop_first()
            } else {
                longer
            },
            future: Seq::empty(),
        }
    }

    /// The history after going back from `current`.
    pub open spec fn gone_back(self, current: SnapshotView) -> UndoView {
        if self.past.len() > 0 {
            UndoView { past: self.past.drop_last(), future: self.future.push(current) }
        } else {
            self
        }
    }

    /// The history after going forward from `current`.
    pub open spec fn gone_forward(self, current: SnapshotView) -> UndoView {
        if self.future.len() > 0 {
            UndoView { past: self.past.push(current), future: self.future.drop_last() }
        } else {
            self
        }
    }
}

impl View for UndoManager {
    type V = UndoView;

    closed spec fn view(&self) -> UndoView {
        UndoView { past: views(self.past@), future: views(self.future@) }
    }
}

impl UndoManager {
    /// A history without snapshots.
    pub fn new() -> (history: Self)
        ensures
            history@ == (UndoView { past: Seq::empty(), future: Seq::empty() }),
    {
        UndoManager { past: Vec::new(), future: Vec::new() }
    }

    /// Records the state before a new edit.
    pub fn push(&mut self, state: TimelineState)
        ensures
            final(self)@ == old(self)@.pushed(state@),
    {
        self.future.clear();
        self.past.push(state);
        if self.past.len() > UNDO_LIMIT {
            let forgotten = self.past.remove(0);
        }
    }

    /// Goes back from the state `current` to the one before.
    pub fn undo(&mut self, current: TimelineState) -> (previous: Option<TimelineState>)
        ensures
            previous is Some <==> old(self)@.past.len() > 0,
            previous is Some ==> previous->0@ == old(self)@.past.last(),
            final(self)@ == old(self)@.gone_back(current@),
    {
        match self.past.pop() {
            Some(previous) => {
                self.future.push(current);
                Some(previous)
            },
            None => None,
        }
    }

    /// Goes forward from the state `current` to the one that was left.
    pub fn redo(&mut self, current: TimelineState) -> (next: Option<TimelineState>)
        ensures
            next is Some <==> old(self)@.future.len() > 0,
            next is Some ==> next->0@ == old(self)@.future.last(),
            final(self)@ == old(self)@.gone_forward(current@),
    {
        match self.future.pop() {
            Some(next) => {
                self.past.push(current);
                Some(next)
            },
            None => None,
        }
    }
}

} // verus!
