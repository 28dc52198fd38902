//! Which ways of exporting a timeline are open.
use crate::clip::{Clip, ClipView};
use crate::clip_effects::EffectKind;
use crate::copying::views;
use crate::effect::{LocalMaskLayer, VideoEffect, ONE, ZERO};
use crate::export_settings::{ExportPreset, SHORTEST_EXPORT};
use crate::layer::{LayerColorBlurEffects, LayerEffectClip, LayerEffectClipView};
use crate::masks::share;
use crate::scalar::{magnitude, Scalar};
use crate::subtitle::{SubtitleTrack, SubtitleTrackView};
use crate::text::same_text;
use crate::tracks::{AudioTrack, AudioTrackView, VideoTrack, VideoTrackView};
use vstd::prelude::*;

verus! {

broadcast use crate::copying::group_views;

/// The bit pattern of a thousandth.
pub const THOUSANDTH: u32 = 0x3a83_126f;

/// The bit pattern of the smallest number that is at most a thousandth below 1.
pub const JUST_BELOW_ONE: u32 = 0x3f7f_be77;

/// The bit pattern of the largest number that is at most a thousandth above 1.
pub const JUST_ABOVE_ONE: u32 = 0x3f80_20c4;

/// Whether a number is at most a thousandth away from 0.
pub open spec fn near_zero(s: Scalar) -> bool {
    magnitude(s.bits) <= THOUSANDTH
}

/// Whether a number is at most a thousandth away from 1.
pub open spec fn near_one(s: Scalar) -> bool {
    JUST_BELOW_ONE <= s.bits <= JUST_ABOVE_ONE
}

/// Whether a number is at most a thousandth away from 0.
pub fn is_near_zero(s: Scalar) -> (yes: bool)
    ensures
        yes == near_zero(s),
{
    s.abs().bits <= THOUSANDTH
}

/// Whether a number is at most a thousandth away from 1.
pub fn is_near_one(s: Scalar) -> (yes: bool)
    ensures
        yes == near_one(s),
{
    JUST_BELOW_ONE <= s.bits && s.bits <= JUST_ABOVE_ONE
}

/// Whether an effect changes nothing. An opacity always counts as a change.
pub open spec fn identity_effect(e: VideoEffect) -> bool {
    match e {
        VideoEffect::ColorCorrection { brightness, contrast, saturation } => near_zero(brightness)
            && near_one(contrast) && near_one(saturation),
        VideoEffect::Transform { scale, position_x, position_y, rotation_deg } => near_one(scale)
            && near_zero(position_x) && near_zero(position_y) && near_zero(rotation_deg),
        VideoEffect::Tint { hue, saturation, lightness, alpha } => near_zero(hue) && near_zero(
            saturation,
        ) && near_zero(lightness) && near_zero(alpha),
        VideoEffect::Opacity { .. } => false,
        VideoEffect::Fade { fade_in, fade_out } => near_zero(fade_in) && near_zero(fade_out),
        VideoEffect::Dissolve { dissolve_in, dissolve_out } => near_zero(dissolve_in) && near_zero(
            dissolve_out,
        ),
        VideoEffect::Slide { slide_in, slide_out, .. } => near_zero(slide_in) && near_zero(
            slide_out,
        ),
        VideoEffect::Zoom { zoom_in, zoom_out, .. } => near_zero(zoom_in) && near_zero(zoom_out),
        VideoEffect::ShockZoom { shock_in, shock_out, .. } => near_zero(shock_in) && near_zero(
            shock_out,
        ),
        VideoEffect::GaussianBlur { sigma } => near_zero(sigma),
        VideoEffect::LocalMask { enabled, .. } => !enabled,
        VideoEffect::LocalMaskAdjust { brightness, contrast, saturation, opacity, blur_sigma } =>
            near_zero(brightness) && near_one(contrast) && near_one(saturation) && near_one(opacity)
            && near_zero(blur_sigma),
        VideoEffect::Pixelate { block_size } => block_size <= 1,
    }
}

/// Whether an effect changes nothing.
pub fn is_identity_video_effect(e: &VideoEffect) -> (yes: bool)
    ensures
        yes == identity_effect(*e),
{
    match *e {
        VideoEffect::ColorCorrection { brightness, contrast, saturation } => is_near_zero(
            brightness,
        ) && is_near_one(contrast) && is_near_one(saturation),
        VideoEffect::Transform { scale, position_x, position_y, rotation_deg } => is_near_one(scale)
            && is_near_zero(position_x) && is_near_zero(position_y) && is_near_zero(rotation_deg),
        VideoEffect::Tint { hue, saturation, lightness, alpha } => is_near_zero(hue)
            && is_near_zero(saturation) && is_near_zero(lightness) && is_near_zero(alpha),
        VideoEffect::Opacity { .. } => false,
        VideoEffect::Fade { fade_in, fade_out } => is_near_zero(fade_in) && is_near_zero(fade_out),
        VideoEffect::Dissolve { dissolve_in, dissolve_out } => is_near_zero(dissolve_in)
            && is_near_zero(dissolve_out),
        VideoEffect::Slide { slide_in, slide_out, .. } => is_near_zero(slide_in) && is_near_zero(
            slide_out,
        ),
        VideoEffect::Zoom { zoom_in, zoom_out, .. } => is_near_zero(zoom_in) && is_near_zero(
            zoom_out,
        ),
        VideoEffect::ShockZoom { shock_in, shock_out, .. } => is_near_zero(shock_in)
            && is_near_zero(shock_out),
        VideoEffect::GaussianBlur { sigma } => is_near_zero(sigma),
        VideoEffect::LocalMask { enabled, .. } => !enabled,
        VideoEffect::LocalMaskAdjust { brightness, contrast, saturation, opacity, blur_sigma } =>
            is_near_zero(brightness) && is_near_one(contrast) && is_near_one(saturation)
            && is_near_one(opacity) && is_near_zero(blur_sigma),
        VideoEffect::Pixelate { block_size } => block_size <= 1,
    }
}

/// Whether a mask layer covers anything.
pub open spec fn covers(layer: LocalMaskLayer) -> bool {
    let t = Scalar { bits: THOUSANDTH };
    layer.enabled && t.below(layer.strength) && (t.below(layer.radius) || t.below(layer.feather))
}

/// Whether one of the mask layers covers anything.
pub fn has_active_local_mask_layers(layers: &Vec<LocalMaskLayer>) -> (yes: bool)
    ensures
        yes == exists|i: int| 0 <= i < layers.len() && covers(#[trigger] layers@[i]),
{
    let t = Scalar { bits: THOUSANDTH };
    let mut i: usize = 0;
    while i < layers.len()
        invariant
            i <= layers.len(),
            t == (Scalar { bits: THOUSANDTH }),
            forall|j: int| 0 <= j < i ==> !covers(#[trigger] layers@[j]),
        decreases layers.len() - i,
    {
        let layer = &layers[i];
        if layer.enabled && t.lt(layer.strength) && (t.lt(layer.radius) || t.lt(layer.feather)) {
            assert(covers(layers@[i as int]));
            return true;
        }
        i += 1;
    }
    false
}

impl ClipView {
    /// Whether the clip has keyframes for something other than its opacity.
    pub open spec fn moves(self) -> bool {
        let k = self.keyframes;
        k.pos_x.len() > 0 || k.pos_y.len() > 0 || k.scale.len() > 0 || k.rotation.len() > 0
            || k.brightness.len() > 0 || k.contrast.len() > 0 || k.saturation.len() > 0
    }

    /// Whether a dissolve has cut something off the clip.
    pub open spec fn is_cut_by_dissolve(self) -> bool {
        self.dissolve_trim_in > SHORTEST_EXPORT || self.dissolve_trim_out > SHORTEST_EXPORT
    }

    /// Whether nothing but its opacity changes the clip's picture.
    #[verifier::opaque]
    pub open spec fn only_fades(self) -> bool {
        &&& !exists|i: int|
            0 <= i < self.local_mask_layers.len() && covers(#[trigger] self.local_mask_layers[i])
        &&& !self.moves()
        &&& self.keyframes.blur.len() == 0
        &&& !self.is_cut_by_dissolve()
        &&& forall|i: int|
            0 <= i < self.video_effects.len() ==> (#[trigger] self.video_effects[i]) is Opacity
                || identity_effect(self.video_effects[i])
    }

    /// Whether the clip is ever less than opaque.
    #[verifier::opaque]
    pub open spec fn is_seen_through(self) -> bool {
        let opacity = share(self.effect(EffectKind::Opacity)->Opacity_alpha);
        self.keyframes.opacity.len() > 0 || (!opacity.nan() && !near_one(opacity))
    }

    /// Whether the clip is a piece of its file, just as it is.
    pub open spec fn is_plain(self) -> bool {
        self.video_effects.len() == 0 && self.local_mask_layers.len() == 0 && !self.moves()
            && self.keyframes.opacity.len() == 0 && self.keyframes.blur.len() == 0
            && !self.is_cut_by_dissolve()
    }
}

impl Clip {
    fn has_moves(&self) -> (yes: bool)
        ensures
            yes == self@.moves(),
    {
        self.pos_x_keyframes.len() > 0 || self.pos_y_keyframes.len() > 0
            || self.scale_keyframes.len() > 0 || self.rotation_keyframes.len() > 0
            || self.brightness_keyframes.len() > 0 || self.contrast_keyframes.len() > 0
            || self.saturation_keyframes.len() > 0
    }

    fn has_dissolve_cut(&self) -> (yes: bool)
        ensures
            yes == self@.is_cut_by_dissolve(),
    {
        self.dissolve_trim_in.nanos > SHORTEST_EXPORT || self.dissolve_trim_out.nanos
            > SHORTEST_EXPORT
    }

    /// Whether the clip is a piece of its file, just as it is.
    pub fn is_untouched(&self) -> (yes: bool)
        ensures
            yes == self@.is_plain(),
    {
        self.video_effects.len() == 0 && self.local_mask_layers.len() == 0 && !self.has_moves()
            && self.opacity_keyframes.len() == 0 && self.blur_keyframes.len() == 0
            && !self.has_dissolve_cut()
    }
}

/// Whether nothing but its opacity changes the clip's picture.
pub fn is_opacity_only_compatible_clip(clip: &Clip) -> (yes: bool)
    ensures
        yes == clip@.only_fades(),
{
    reveal(ClipView::only_fades);
    assert(clip@.local_mask_layers == clip.local_mask_layers@);
    assert(forall|i: int|
        0 <= i < clip.local_mask_layers.len() && covers(#[trigger] clip.local_mask_layers@[i])
            ==> covers(#[trigger] clip@.local_mask_layers[i]));
    if has_active_local_mask_layers(&clip.local_mask_layers) || clip.has_moves()
        || clip.blur_keyframes.len() > 0 || clip.has_dissolve_cut() {
        return false;
    }
    let mut i: usize = 0;
    while i < clip.video_effects.len()
        invariant
            i <= clip.video_effects.len(),
            forall|j: int|
                0 <= j < i ==> (#[trigger] clip.video_effects@[j]) is Opacity || identity_effect(
                    clip.video_effects@[j],
                ),
        decreases clip.video_effects.len() - i,
    {
        let opacity = matches!(clip.video_effects[i], VideoEffect::Opacity { .. });
        if !opacity && !is_identity_video_effect(&clip.video_effects[i]) {
            reveal(ClipView::only_fades);
            assert(!(clip@.video_effects[i as int] is Opacity));
            return false;
        }
        i += 1;
    }
    true
}

/// Whether the clip is ever less than opaque.
pub fn clip_has_non_identity_opacity(clip: &Clip) -> (yes: bool)
    ensures
        yes == clip@.is_seen_through(),
{
    reveal(ClipView::is_seen_through);
    if clip.opacity_keyframes.len() > 0 {
        return true;
    }
    let opacity = clip.get_opacity().clamp(Scalar { bits: ZERO }, Scalar { bits: ONE });
    !opacity.is_nan() && !is_near_one(opacity)
}

/// All clips of the audio tracks.
pub open spec fn all_sounds(tracks: Seq<AudioTrackView>) -> Seq<ClipView>
    decreases tracks.len(),
{
    if tracks.len() == 0 {
        seq![]
    } else {
        all_sounds(tracks.drop_last()) + tracks.last().clips
    }
}

/// Whether the sound is just that of the one picture.
pub open spec fn sound_is_of(tracks: Seq<AudioTrackView>, clip: ClipView) -> bool {
    let all = all_sounds(tracks);
    all.len() == 0 || (all.len() == 1 && {
        let a = all[0];
        a.file_path == clip.file_path && a.start == clip.start && a.duration == clip.duration
            && a.source_in == clip.source_in && near_zero(a.audio_gain_db)
    })
}

/// Whether the sound is just that of the one picture.
pub fn is_default_linked_audio_layout(tracks: &Vec<AudioTrack>, clip: &Clip) -> (yes: bool)
    ensures
        yes == sound_is_of(views(tracks@), clip@),
{
    let ghost all_tracks = views(tracks@);
    let mut at: Option<usize> = None;
    let mut i: usize = 0;
    assert(all_tracks.take(0) =~= seq![]);
    while i < tracks.len()
        invariant
            i <= tracks.len(),
            all_tracks == views(tracks@),
            match at {
                None => all_sounds(all_tracks.take(i as int)).len() == 0,
                Some(k) => k < i && tracks@[k as int].clips.len() == 1 && all_sounds(
                    all_tracks.take(i as int),
                ) == views(tracks@[k as int].clips@),
            },
        decreases tracks.len() - i,
    {
        proof {
            assert(all_tracks.take(i + 1).drop_last() =~= all_tracks.take(i as int));
            assert(all_tracks.take(i + 1).last() == tracks@[i as int]@);
        }
        let n: usize = tracks[i].clips.len();
        if n > 0 {
            if at.is_some() || n > 1 {
                proof {
                    lemma_sounds_grow(all_tracks, i + 1);
                }
                return false;
            }
            at = Some(i);
            assert(all_sounds(all_tracks.take(i + 1)) =~= views(tracks@[i as int].clips@));
        } else {
            assert(all_sounds(all_tracks.take(i + 1)) =~= all_sounds(all_tracks.take(i as int)));
        }
        i += 1;
    }
    assert(all_tracks.take(i as int) =~= all_tracks);
    match at {
        None => true,
        Some(k) => {
            let a = &tracks[k].clips[0];
            same_text(&a.file_path, &clip.file_path) && a.start.nanos == clip.start.nanos
                && a.duration.nanos == clip.duration.nanos && a.source_in.nanos
                == clip.source_in.nanos && is_near_zero(a.audio_gain_db)
        },
    }
}

proof fn lemma_sounds_grow(tracks: Seq<AudioTrackView>, i: int)
    requires
        0 <= i <= tracks.len(),
    ensures
        all_sounds(tracks.take(i)).len() <= all_sounds(tracks).len(),
    decreases tracks.len() - i,
{
    if i < tracks.len() {
        lemma_sounds_grow(tracks, i + 1);
        assert(tracks.take(i + 1).drop_last() =~= tracks.take(i));
    } else {
        assert(tracks.take(i) =~= tracks);
    }
}

/// Whether a subtitle track holds anything.
pub open spec fn some_subtitles(tracks: Seq<SubtitleTrackView>) -> bool {
    exists|i: int| 0 <= i < tracks.len() && (#[trigger] tracks[i]).clips.len() > 0
}

/// Whether an audio track holds anything.
pub open spec fn some_sounds(tracks: Seq<AudioTrackView>) -> bool {
    exists|i: int| 0 <= i < tracks.len() && (#[trigger] tracks[i]).clips.len() > 0
}

/// Whether a video track above the main one holds anything.
pub open spec fn some_overlays(tracks: Seq<VideoTrackView>) -> bool {
    exists|i: int| 0 <= i < tracks.len() && (#[trigger] tracks[i]).clips.len() > 0
}

/// Whether a subtitle track holds anything.
pub fn has_subtitles(tracks: &Vec<SubtitleTrack>) -> (yes: bool)
    ensures
        yes == some_subtitles(views(tracks@)),
{
    let mut i: usize = 0;
    while i < tracks.len()
        invariant
            i <= tracks.len(),
            forall|j: int| 0 <= j < i ==> (#[trigger] views(tracks@)[j]).clips.len() == 0,
        decreases tracks.len() - i,
    {
        if tracks[i].clips.len() > 0 {
            assert(views(tracks@)[i as int].clips.len() > 0);
            return true;
        }
        i += 1;
    }
    false
}

/// Whether an audio track holds anything.
pub fn has_sounds(tracks: &Vec<AudioTrack>) -> (yes: bool)
    ensures
        yes == some_sounds(views(tracks@)),
{
    let mut i: usize = 0;
    while i < tracks.len()
        invariant
            i <= tracks.len(),
            forall|j: int| 0 <= j < i ==> (#[trigger] views(tracks@)[j]).clips.len() == 0,
        decreases tracks.len() - i,
    {
        if tracks[i].clips.len() > 0 {
            assert(views(tracks@)[i as int].clips.len() > 0);
            return true;
        }
        i += 1;
    }
    false
}

/// Whether a video track above the main one holds anything.
pub fn has_overlays(tracks: &Vec<VideoTrack>) -> (yes: bool)
    ensures
        yes == some_overlays(views(tracks@)),
{
    let mut i: usize = 0;
    while i < tracks.len()
        invariant
            i <= tracks.len(),
            forall|j: int| 0 <= j < i ==> (#[trigger] views(tracks@)[j]).clips.len() == 0,
        decreases tracks.len() - i,
    {
        if tracks[i].clips.len() > 0 {
            assert(views(tracks@)[i as int].clips.len() > 0);
            return true;
        }
        i += 1;
    }
    false
}

/// Whether a clip of the main track or of one above it has the property.
pub open spec fn some_picture(
    v1: Seq<ClipView>,
    tracks: Seq<VideoTrackView>,
    p: spec_fn(ClipView) -> bool,
) -> bool {
    (exists|i: int| 0 <= i < v1.len() && p(#[trigger] v1[i])) || (exists|i: int, j: int|
        0 <= i < tracks.len() && 0 <= j < tracks[i].clips.len() && p(#[trigger] tracks[i].clips[j]))
}

fn any_changed(clips: &Vec<Clip>) -> (yes: bool)
    ensures
        yes == exists|i: int|
            0 <= i < clips.len() && !(#[trigger] views(clips@)[i]).only_fades(),
{
    let mut i: usize = 0;
    while i < clips.len()
        invariant
            i <= clips.len(),
            forall|j: int| 0 <= j < i ==> (#[trigger] views(clips@)[j]).only_fades(),
        decreases clips.len() - i,
    {
        if !is_opacity_only_compatible_clip(&clips[i]) {
            assert(!views(clips@)[i as int].only_fades());
            return true;
        }
        i += 1;
    }
    false
}

fn any_seen_through(clips: &Vec<Clip>) -> (yes: bool)
    ensures
        yes == exists|i: int|
            0 <= i < clips.len() && (#[trigger] views(clips@)[i]).is_seen_through(),
{
    let mut i: usize = 0;
    while i < clips.len()
        invariant
            i <= clips.len(),
            forall|j: int| 0 <= j < i ==> !(#[trigger] views(clips@)[j]).is_seen_through(),
        decreases clips.len() - i,
    {
        if clip_has_non_identity_opacity(&clips[i]) {
            assert(views(clips@)[i as int].is_seen_through());
            return true;
        }
        i += 1;
    }
    false
}

/// Whether a clip is changed by more than its opacity.
pub fn some_picture_changed(v1: &Vec<Clip>, tracks: &Vec<VideoTrack>) -> (yes: bool)
    ensures
        yes == some_picture(views(v1@), views(tracks@), |c: ClipView| !c.only_fades()),
{
    let ghost p = |c: ClipView| !c.only_fades();
    if any_changed(v1) {
        proof {
            let i = choose|i: int|
                0 <= i < v1.len() && !(#[trigger] views(v1@)[i]).only_fades();
            assert(p(views(v1@)[i]));
        }
        return true;
    }
    let mut k: usize = 0;
    while k < tracks.len()
        invariant
            k <= tracks.len(),
            p == (|c: ClipView| !c.only_fades()),
            forall|i: int, j: int|
                0 <= i < k && 0 <= j < views(tracks@)[i].clips.len() ==> !p(
                    #[trigger] views(tracks@)[i].clips[j],
                ),
        decreases tracks.len() - k,
    {
        if any_changed(&tracks[k].clips) {
            proof {
                let j = choose|j: int|
                    0 <= j < tracks@[k as int].clips.len() && !(#[trigger] views(
                        tracks@[k as int].clips@,
                    )[j]).only_fades();
                assert(p(views(tracks@)[k as int].clips[j]));
            }
            return true;
        }
        assert forall|j: int| 0 <= j < views(tracks@)[k as int].clips.len() implies !p(
            #[trigger] views(tracks@)[k as int].clips[j],
        ) by {
            assert(views(tracks@[k as int].clips@)[j].only_fades());
        }
        k += 1;
    }
    false
}

/// Whether a clip is ever less than opaque.
pub fn some_picture_seen_through(v1: &Vec<Clip>, tracks: &Vec<VideoTrack>) -> (yes: bool)
    ensures
        yes == some_picture(views(v1@), views(tracks@), |c: ClipView| c.is_seen_through()),
{
    let ghost p = |c: ClipView| c.is_seen_through();
    if any_seen_through(v1) {
        proof {
            let i = choose|i: int|
                0 <= i < v1.len() && (#[trigger] views(v1@)[i]).is_seen_through();
            assert(p(views(v1@)[i]));
        }
        return true;
    }
    let mut k: usize = 0;
    while k < tracks.len()
        invariant
            k <= tracks.len(),
            p == (|c: ClipView| c.is_seen_through()),
            forall|i: int, j: int|
                0 <= i < k && 0 <= j < views(tracks@)[i].clips.len() ==> !p(
                    #[trigger] views(tracks@)[i].clips[j],
                ),
        decreases tracks.len() - k,
    {
        if any_seen_through(&tracks[k].clips) {
            proof {
                let j = choose|j: int|
                    0 <= j < tracks@[k as int].clips.len() && (#[trigger] views(
                        tracks@[k as int].clips@,
                    )[j]).is_seen_through();
                assert(p(views(tracks@)[k as int].clips[j]));
            }
            return true;
        }
        assert forall|j: int| 0 <= j < views(tracks@)[k as int].clips.len() implies !p(
            #[trigger] views(tracks@)[k as int].clips[j],
        ) by {
            assert(!views(tracks@[k as int].clips@)[j].is_seen_through());
        }
        k += 1;
    }
    false
}

/// What the ways through the graphics processor ask of the whole timeline.
pub open spec fn gpu_ready(
    subtitles: Seq<SubtitleTrackView>,
    effects: LayerColorBlurEffects,
    layers: Seq<LayerEffectClipView>,
    preset: ExportPreset,
) -> bool {
    preset is H264VideotoolboxMp4 && !some_subtitles(subtitles) && effects.changes_nothing()
        && layers.len() == 0
}

fn is_gpu_ready(
    subtitles: &Vec<SubtitleTrack>,
    effects: LayerColorBlurEffects,
    layers: &Vec<LayerEffectClip>,
    preset: ExportPreset,
) -> (yes: bool)
    ensures
        yes == gpu_ready(views(subtitles@), effects, views(layers@), preset),
{
    matches!(preset, ExportPreset::H264VideotoolboxMp4) && !has_subtitles(subtitles)
        && effects.is_identity() && layers.len() == 0
}

/// Whether one clip alone, with nothing but its opacity, can go through the graphics
/// processor.
pub open spec fn single_clip_path(
    v1: Seq<ClipView>,
    sounds: Seq<AudioTrackView>,
    overlays: Seq<VideoTrackView>,
    subtitles: Seq<SubtitleTrackView>,
    effects: LayerColorBlurEffects,
    layers: Seq<LayerEffectClipView>,
    preset: ExportPreset,
) -> bool {
    &&& gpu_ready(subtitles, effects, layers, preset)
    &&& v1.len() == 1
    &&& !some_overlays(overlays)
    &&& v1[0].start <= SHORTEST_EXPORT
    &&& sound_is_of(sounds, v1[0])
    &&& v1[0].only_fades()
    &&& v1[0].is_seen_through()
}

/// Whether one clip alone, with nothing but its opacity, can go through the graphics
/// processor.
pub fn should_try_true_gpu_single_clip_opacity_path(
    v1: &Vec<Clip>,
    sounds: &Vec<AudioTrack>,
    overlays: &Vec<VideoTrack>,
    subtitles: &Vec<SubtitleTrack>,
    effects: LayerColorBlurEffects,
    layers: &Vec<LayerEffectClip>,
    preset: ExportPreset,
) -> (yes: bool)
    ensures
        yes == single_clip_path(
            views(v1@),
            views(sounds@),
            views(overlays@),
            views(subtitles@),
            effects,
            views(layers@),
            preset,
        ),
{
    is_gpu_ready(subtitles, effects, layers, preset) && v1.len() == 1 && !has_overlays(overlays)
        && v1[0].start.nanos <= SHORTEST_EXPORT && is_default_linked_audio_layout(sounds, &v1[0])
        && is_opacity_only_compatible_clip(&v1[0]) && clip_has_non_identity_opacity(&v1[0])
}

/// Whether several tracks with at most one clip each, and nothing but opacities, can go
/// through the graphics processor.
pub open spec fn multitrack_path(
    v1: Seq<ClipView>,
    sounds: Seq<AudioTrackView>,
    overlays: Seq<VideoTrackView>,
    subtitles: Seq<SubtitleTrackView>,
    effects: LayerColorBlurEffects,
    layers: Seq<LayerEffectClipView>,
    preset: ExportPreset,
) -> bool {
    &&& gpu_ready(subtitles, effects, layers, preset)
    &&& v1.len() == 1
    &&& sound_is_of(sounds, v1[0])
    &&& forall|i: int| 0 <= i < overlays.len() ==> (#[trigger] overlays[i]).clips.len() <= 1
    &&& !some_picture(v1, overlays, |c: ClipView| !c.only_fades())
    &&& some_picture(v1, overlays, |c: ClipView| c.is_seen_through())
}

fn at_most_one_each(tracks: &Vec<VideoTrack>) -> (yes: bool)
    ensures
        yes == forall|i: int|
            0 <= i < tracks.len() ==> (#[trigger] views(tracks@)[i]).clips.len() <= 1,
{
    let mut i: usize = 0;
    while i < tracks.len()
        invariant
            i <= tracks.len(),
            forall|j: int| 0 <= j < i ==> (#[trigger] views(tracks@)[j]).clips.len() <= 1,
        decreases tracks.len() - i,
    {
        if tracks[i].clips.len() > 1 {
            assert(views(tracks@)[i as int].clips.len() > 1);
            return false;
        }
        i += 1;
    }
    true
}

/// Whether several tracks with at most one clip each, and nothing but opacities, can go
/// through the graphics processor.
pub fn should_try_true_gpu_multitrack_opacity_path(
    v1: &Vec<Clip>,
    sounds: &Vec<AudioTrack>,
    overlays: &Vec<VideoTrack>,
    subtitles: &Vec<SubtitleTrack>,
    effects: LayerColorBlurEffects,
    layers: &Vec<LayerEffectClip>,
    preset: ExportPreset,
) -> (yes: bool)
    ensures
        yes == multitrack_path(
            views(v1@),
            views(sounds@),
            views(overlays@),
            views(subtitles@),
            effects,
            views(layers@),
            preset,
        ),
{
    is_gpu_ready(subtitles, effects, layers, preset) && v1.len() == 1
        && is_default_linked_audio_layout(sounds, &v1[0]) && at_most_one_each(overlays)
        && !some_picture_changed(v1, overlays) && some_picture_seen_through(v1, overlays)
}

} // verus!
