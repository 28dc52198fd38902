//! Clips: pieces of media placed on the timeline.
use crate::copying::{copy_list, views, Duplicate};
use crate::effect::{LocalMaskLayer, ScalarKeyframe, VideoEffect};
use crate::order::Timed;
use crate::scalar::Scalar;
use crate::time::{Duration, MAX_NANOS};
use vstd::prelude::*;

verus! {

broadcast use crate::copying::group_views;

/// A piece of media on the timeline: `duration` of the file from `source_in` on,
/// shown from `start` on.
#[derive(Debug)]
pub struct Clip {
    pub id: u64,
    pub label: String,
    pub file_path: String,
    pub start: Duration,
    pub duration: Duration,
    pub source_in: Duration,
    pub media_duration: Duration,
    /// Clips with the same group are edited together.
    pub link_group_id: Option<u64>,
    /// Gain in dB on top of the track's.
    pub audio_gain_db: Scalar,
    /// What a dissolve cut off the front of the clip.
    pub dissolve_trim_in: Duration,
    /// What a dissolve cut off the back of the clip.
    pub dissolve_trim_out: Duration,
    pub video_effects: Vec<VideoEffect>,
    pub local_mask_layers: Vec<LocalMaskLayer>,
    pub pos_x_keyframes: Vec<ScalarKeyframe>,
    pub pos_y_keyframes: Vec<ScalarKeyframe>,
    pub scale_keyframes: Vec<ScalarKeyframe>,
    pub rotation_keyframes: Vec<ScalarKeyframe>,
    pub brightness_keyframes: Vec<ScalarKeyframe>,
    pub contrast_keyframes: Vec<ScalarKeyframe>,
    pub saturation_keyframes: Vec<ScalarKeyframe>,
    pub opacity_keyframes: Vec<ScalarKeyframe>,
    pub blur_keyframes: Vec<ScalarKeyframe>,
}

/// What a clip holds.
#[verifier::ext_equal]
pub ghost struct ClipView {
    pub id: u64,
    pub label: Seq<char>,
    pub file_path: Seq<char>,
    pub start: int,
    pub duration: int,
    pub source_in: int,
    pub media_duration: int,
    pub link_group_id: Option<u64>,
    pub audio_gain_db: Scalar,
    pub dissolve_trim_in: int,
    pub dissolve_trim_out: int,
    pub video_effects: Seq<VideoEffect>,
    pub local_mask_layers: Seq<LocalMaskLayer>,
    pub keyframes: KeyframesView,
}

/// The keyframes of a clip, by what they change.
#[verifier::ext_equal]
pub ghost struct KeyframesView {
    pub pos_x: Seq<ScalarKeyframe>,
    pub pos_y: Seq<ScalarKeyframe>,
    pub scale: Seq<ScalarKeyframe>,
    pub rotation: Seq<ScalarKeyframe>,
    pub brightness: Seq<ScalarKeyframe>,
    pub contrast: Seq<ScalarKeyframe>,
    pub saturation: Seq<ScalarKeyframe>,
    pub opacity: Seq<ScalarKeyframe>,
    pub blur: Seq<ScalarKeyframe>,
}

impl ClipView {
    /// The time at which the clip ends.
    pub open spec fn end(self) -> int {
        self.start + self.duration
    }
}

impl View for Clip {
    type V = ClipView;

    open spec fn view(&self) -> ClipView {
        ClipView {
            id: self.id,
            label: self.label@,
            file_path: self.file_path@,
            start: self.start@,
            duration: self.duration@,
            source_in: self.source_in@,
            media_duration: self.media_duration@,
            link_group_id: self.link_group_id,
            audio_gain_db: self.audio_gain_db,
            dissolve_trim_in: self.dissolve_trim_in@,
            dissolve_trim_out: self.dissolve_trim_out@,
            video_effects: self.video_effects@,
            local_mask_layers: self.local_mask_layers@,
            keyframes: KeyframesView {
                pos_x: self.pos_x_keyframes@,
                pos_y: self.pos_y_keyframes@,
                scale: self.scale_keyframes@,
                rotation: self.rotation_keyframes@,
                brightness: self.brightness_keyframes@,
                contrast: self.contrast_keyframes@,
                saturation: self.saturation_keyframes@,
                opacity: self.opacity_keyframes@,
                blur: self.blur_keyframes@,
            },
        }
    }
}

impl Timed for Clip {
    open spec fn at(&self) -> int {
        self.start@
    }

    fn time(&self) -> (t: Duration) {
        self.start
    }
}

impl Clone for Clip {
    fn clone(&self) -> (copy: Self)
        ensures
            copy@ == self@,
    {
        Clip {
            id: self.id,
            label: self.label.clone(),
            file_path: self.file_path.clone(),
            start: self.start,
            duration: self.duration,
            source_in: self.source_in,
            media_duration: self.media_duration,
            link_group_id: self.link_group_id,
            audio_gain_db: self.audio_gain_db,
            dissolve_trim_in: self.dissolve_trim_in,
            dissolve_trim_out: self.dissolve_trim_out,
            video_effects: copy_list(&self.video_effects),
            local_mask_layers: copy_list(&self.local_mask_layers),
            pos_x_keyframes: copy_list(&self.pos_x_keyframes),
            pos_y_keyframes: copy_list(&self.pos_y_keyframes),
            scale_keyframes: copy_list(&self.scale_keyframes),
            rotation_keyframes: copy_list(&self.rotation_keyframes),
            brightness_keyframes: copy_list(&self.brightness_keyframes),
            contrast_keyframes: copy_list(&self.contrast_keyframes),
            saturation_keyframes: copy_list(&self.saturation_keyframes),
            opacity_keyframes: copy_list(&self.opacity_keyframes),
            blur_keyframes: copy_list(&self.blur_keyframes),
        }
    }
}

impl Duplicate for Clip {
    fn duplicate(&self) -> (copy: Self) {
        self.clone()
    }
}

/// Whether the end of the clip is a time that can be written down.
pub open spec fn end_fits(c: ClipView) -> bool {
    c.end() <= MAX_NANOS
}

impl Clip {
    /// The time at which the clip ends.
    pub fn end(&self) -> (t: Duration)
        requires
            end_fits(self@),
        ensures
            t@ == self@.end(),
    {
        self.start.plus(self.duration)
    }
}

/// `clips` in order of their starts; those that start together keep their order.
pub open spec fn by_start(clips: Seq<ClipView>) -> Seq<ClipView> {
    crate::order::ordered(clips, |c: ClipView| c.start)
}

/// Puts the clips in order of their starts.
pub fn sort_clips(clips: &mut Vec<Clip>)
    ensures
        views(final(clips)@) == by_start(views(old(clips)@)),
        final(clips)@ == crate::order::ordered(old(clips)@, |c: Clip| c.at()),
{
    let ghost before = clips@;
    crate::order::sort_by_time(clips);
    proof {
        crate::order::lemma_ordered_views(
            before,
            |c: Clip| c.at(),
            |c: ClipView| c.start,
        );
    }
}

} // verus!
