//! Changes of the selected clip.
use crate::clip::{Clip, ClipView};
use crate::clip_effects::{EffectKind, HALF_TURN, MINUS_HALF_TURN, SIXTY_FOUR};
use crate::effect::{ScalarKeyframe, SlideDirection, VideoEffect, MINUS_ONE, ONE, TWO, ZERO};
use crate::keyframes::{index_at, key_place, Sample, KEYFRAME_REACH};
use crate::modes::ClipKeyframeChannel;
use crate::moves::{find_clip, place_of};
use crate::scalar::Scalar;
use crate::state::{GlobalState, StateView};
use crate::time::{greatest, least, Duration};
use crate::tracks::{Timeline, TimelineView};
use vstd::prelude::*;

verus! {

broadcast use crate::copying::group_views;

/// The bit pattern of 0.01.
pub const HUNDREDTH: u32 = 0x3c23_d70a;

/// The bit pattern of 5.
pub const FIVE: u32 = 0x40a0_0000;

/// The bit pattern of 360.
pub const WHOLE_TURN: u32 = 0x43b4_0000;

/// One change of a clip.
#[derive(Clone, Copy, Debug, PartialEq, Eq, Structural)]
pub enum ClipEdit {
    /// The value of a channel: of the keyframe at the playhead if there is one, else for
    /// the whole clip.
    Channel(ClipKeyframeChannel, Scalar),
    /// A keyframe at the playhead with the value that the channel has there. On the line
    /// between two keyframes it is the one that is given.
    AddKey(ClipKeyframeChannel, Scalar),
    /// No keyframe at the playhead.
    RemoveKey(ClipKeyframeChannel),
    FadeIn(Scalar),
    FadeOut(Scalar),
    SlideIn(Scalar),
    SlideOut(Scalar),
    SlideInDirection(SlideDirection),
    SlideOutDirection(SlideDirection),
    ZoomIn(Scalar),
    ZoomOut(Scalar),
    ZoomAmount(Scalar),
    ShockIn(Scalar),
    ShockOut(Scalar),
    ShockAmount(Scalar),
    OverlayHue(Scalar),
    OverlaySaturation(Scalar),
    OverlayLightness(Scalar),
    OverlayAlpha(Scalar),
    AddMaskLayer,
    MaskEnabled(usize, bool),
    MaskCenterX(usize, Scalar),
    MaskCenterY(usize, Scalar),
    MaskRadius(usize, Scalar),
    MaskFeather(usize, Scalar),
    MaskStrength(usize, Scalar),
    MaskBrightness(usize, Scalar),
    MaskContrast(usize, Scalar),
    MaskSaturation(usize, Scalar),
    MaskOpacity(usize, Scalar),
    MaskBlur(usize, Scalar),
}

/// The time in the clip at which the playhead stands, if it stands on the clip.
pub open spec fn local_time(playhead: int, c: ClipView) -> Option<int> {
    if playhead < c.start || playhead > c.end() {
        None
    } else {
        Some(playhead - c.start)
    }
}

/// The time in the clip at which the playhead stands.
pub fn clip_local_time(playhead: Duration, clip: &Clip) -> (t: Option<Duration>)
    ensures
        t is Some == local_time(playhead@, clip@) is Some,
        t is Some ==> t->0@ == local_time(playhead@, clip@)->0,
{
    if playhead.nanos < clip.start.nanos || playhead.nanos - clip.start.nanos
        > clip.duration.nanos {
        None
    } else {
        Some(playhead.minus(clip.start))
    }
}

/// The value that a sample stands for; `on_line` is that between two keyframes.
pub open spec fn sample_value(sample: Sample, on_line: Scalar) -> Scalar {
    match sample {
        Sample::At(value) => value,
        Sample::Between { .. } => on_line,
    }
}

impl ClipView {
    /// The clip with the value of a channel for the whole clip.
    pub open spec fn with_base(self, channel: ClipKeyframeChannel, value: Scalar) -> ClipView {
        let color = self.effect(EffectKind::ColorCorrection);
        let place = self.effect(EffectKind::Transform);
        let brightness = color->ColorCorrection_brightness;
        let contrast = color->ColorCorrection_contrast;
        let saturation = color->ColorCorrection_saturation;
        let scale = place->Transform_scale;
        let position_x = place->Transform_position_x;
        let position_y = place->Transform_position_y;
        let rotation_deg = place->Transform_rotation_deg;
        let zero = Scalar { bits: ZERO };
        let one = Scalar { bits: ONE };
        match channel {
            ClipKeyframeChannel::Brightness => self.with_effect(
                VideoEffect::ColorCorrection { brightness: value, contrast, saturation },
            ),
            ClipKeyframeChannel::Contrast => self.with_effect(
                VideoEffect::ColorCorrection { brightness, contrast: value, saturation },
            ),
            ClipKeyframeChannel::Saturation => self.with_effect(
                VideoEffect::ColorCorrection { brightness, contrast, saturation: value },
            ),
            ClipKeyframeChannel::Scale => self.with_effect(
                VideoEffect::Transform { scale: value, position_x, position_y, rotation_deg },
            ),
            ClipKeyframeChannel::PosX => self.with_effect(
                VideoEffect::Transform { scale, position_x: value, position_y, rotation_deg },
            ),
            ClipKeyframeChannel::PosY => self.with_effect(
                VideoEffect::Transform { scale, position_x, position_y: value, rotation_deg },
            ),
            ClipKeyframeChannel::Rotation => self.with_effect(
                VideoEffect::Transform {
                    scale,
                    position_x,
                    position_y,
                    rotation_deg: value.clamped(
                        Scalar { bits: MINUS_HALF_TURN },
                        Scalar { bits: HALF_TURN },
                    ),
                },
            ),
            ClipKeyframeChannel::Opacity => self.with_effect(
                VideoEffect::Opacity { alpha: value.clamped(zero, one) },
            ),
            ClipKeyframeChannel::Blur => self.with_effect(
                VideoEffect::GaussianBlur {
                    sigma: value.clamped(zero, Scalar { bits: SIXTY_FOUR }),
                },
            ),
        }
    }

    /// The clip with the value of a channel at the playhead.
    pub open spec fn with_value(
        self,
        playhead: int,
        channel: ClipKeyframeChannel,
        value: Scalar,
    ) -> ClipView {
        match local_time(playhead, self) {
            Some(t) if self.has_key_at(channel, t) => self.with_key(channel, t, value),
            _ => self.with_base(channel, value),
        }
    }

    /// The clip with a keyframe at the playhead.
    pub open spec fn with_key_here(
        self,
        playhead: int,
        channel: ClipKeyframeChannel,
        on_line: Scalar,
    ) -> ClipView {
        match local_time(playhead, self) {
            Some(t) => self.with_key(channel, t, sample_value(self.sample(channel, t), on_line)),
            None => self,
        }
    }

    /// Whether there is a keyframe at the playhead.
    pub open spec fn has_key_here(self, playhead: int, channel: ClipKeyframeChannel) -> bool {
        local_time(playhead, self) matches Some(t) && self.has_key_at(channel, t)
    }

    /// The clip without the keyframe at the playhead.
    pub open spec fn without_key_here(self, playhead: int, channel: ClipKeyframeChannel) -> ClipView {
        if self.has_key_here(playhead, channel) {
            let keys = self.keyframes.of(channel);
            let at = key_place(keys, local_time(playhead, self)->0, KEYFRAME_REACH as int);
            ClipView { keyframes: self.keyframes.with(channel, keys.remove(at)), ..self }
        } else {
            self
        }
    }

    /// The clip with other slides.
    pub open spec fn with_slide(
        self,
        in_direction: SlideDirection,
        out_direction: SlideDirection,
        slide_in: Scalar,
        slide_out: Scalar,
    ) -> ClipView {
        self.with_effect(
            VideoEffect::Slide {
                in_direction,
                out_direction,
                slide_in: self.fitted(slide_in),
                slide_out: self.fitted(slide_out),
            },
        )
    }

    /// The clip with other zooms.
    pub open spec fn with_zoom(self, zoom_in: Scalar, zoom_out: Scalar, amount: Scalar) -> ClipView {
        self.with_effect(
            VideoEffect::Zoom {
                zoom_in: self.fitted(zoom_in),
                zoom_out: self.fitted(zoom_out),
                zoom_amount: amount_in_range(amount),
            },
        )
    }

    /// The clip with other jumps.
    pub open spec fn with_shock(
        self,
        shock_in: Scalar,
        shock_out: Scalar,
        amount: Scalar,
    ) -> ClipView {
        self.with_effect(
            VideoEffect::ShockZoom {
                shock_in: self.fitted(shock_in),
                shock_out: self.fitted(shock_out),
                shock_amount: amount_in_range(amount),
            },
        )
    }

    /// The clip with the change, where the playhead stands at the given time.
    pub open spec fn edited(self, playhead: int, edit: ClipEdit) -> ClipView {
        let slide = self.effect(EffectKind::Slide);
        let zoom = self.effect(EffectKind::Zoom);
        let shock = self.effect(EffectKind::ShockZoom);
        let tint = self.effect(EffectKind::Tint);
        let in_dir = slide->Slide_in_direction;
        let out_dir = slide->Slide_out_direction;
        let slide_in = slide->Slide_slide_in;
        let slide_out = slide->Slide_slide_out;
        let zoom_in = zoom->Zoom_zoom_in;
        let zoom_out = zoom->Zoom_zoom_out;
        let zoom_amount = zoom->Zoom_zoom_amount;
        let shock_in = shock->ShockZoom_shock_in;
        let shock_out = shock->ShockZoom_shock_out;
        let shock_amount = shock->ShockZoom_shock_amount;
        let hue = tint->Tint_hue;
        let saturation = tint->Tint_saturation;
        let lightness = tint->Tint_lightness;
        let alpha = tint->Tint_alpha;
        match edit {
            ClipEdit::Channel(channel, v) => self.with_value(playhead, channel, v),
            ClipEdit::AddKey(channel, v) => self.with_key_here(playhead, channel, v),
            ClipEdit::RemoveKey(channel) => self.without_key_here(playhead, channel),
            ClipEdit::FadeIn(v) => self.with_fade_in(v),
            ClipEdit::FadeOut(v) => self.with_fade_out(v),
            ClipEdit::SlideIn(v) => self.with_slide(in_dir, out_dir, v, slide_out),
            ClipEdit::SlideOut(v) => self.with_slide(in_dir, out_dir, slide_in, v),
            ClipEdit::SlideInDirection(d) => self.with_slide(d, out_dir, slide_in, slide_out),
            ClipEdit::SlideOutDirection(d) => self.with_slide(in_dir, d, slide_in, slide_out),
            ClipEdit::ZoomIn(v) => self.with_zoom(v, zoom_out, zoom_amount),
            ClipEdit::ZoomOut(v) => self.with_zoom(zoom_in, v, zoom_amount),
            ClipEdit::ZoomAmount(v) => self.with_zoom(zoom_in, zoom_out, v),
            ClipEdit::ShockIn(v) => self.with_shock(v, shock_out, shock_amount),
            ClipEdit::ShockOut(v) => self.with_shock(shock_in, v, shock_amount),
            ClipEdit::ShockAmount(v) => self.with_shock(shock_in, shock_out, v),
            ClipEdit::OverlayHue(v) => self.with_effect(
                VideoEffect::Tint { hue: v, saturation, lightness, alpha },
            ),
            ClipEdit::OverlaySaturation(v) => self.with_effect(
                VideoEffect::Tint { hue, saturation: v, lightness, alpha },
            ),
            ClipEdit::OverlayLightness(v) => self.with_effect(
                VideoEffect::Tint { hue, saturation, lightness: v, alpha },
            ),
            ClipEdit::OverlayAlpha(v) => self.with_effect(
                VideoEffect::Tint { hue, saturation, lightness, alpha: v },
            ),
            ClipEdit::AddMaskLayer => self.with_new_layer(),
            ClipEdit::MaskEnabled(i, v) => {
                let l = self.layer(i as int);
                self.with_region(i as int, v, l.center_x, l.center_y, l.radius, l.feather, l.strength)
            },
            ClipEdit::MaskCenterX(i, v) => {
                let l = self.layer(i as int);
                self.with_region(i as int, l.enabled, v, l.center_y, l.radius, l.feather, l.strength)
            },
            ClipEdit::MaskCenterY(i, v) => {
                let l = self.layer(i as int);
                self.with_region(i as int, l.enabled, l.center_x, v, l.radius, l.feather, l.strength)
            },
            ClipEdit::MaskRadius(i, v) => {
                let l = self.layer(i as int);
                self.with_region(i as int, l.enabled, l.center_x, l.center_y, v, l.feather, l.strength)
            },
            ClipEdit::MaskFeather(i, v) => {
                let l = self.layer(i as int);
                self.with_region(i as int, l.enabled, l.center_x, l.center_y, l.radius, v, l.strength)
            },
            ClipEdit::MaskStrength(i, v) => {
                let l = self.layer(i as int);
                self.with_region(i as int, l.enabled, l.center_x, l.center_y, l.radius, l.feather, v)
            },
            ClipEdit::MaskBrightness(i, v) => {
                let l = self.layer(i as int);
                self.with_adjust(i as int, v, l.contrast, l.saturation, l.opacity, l.blur_sigma)
            },
            ClipEdit::MaskContrast(i, v) => {
                let l = self.layer(i as int);
                self.with_adjust(i as int, l.brightness, v, l.saturation, l.opacity, l.blur_sigma)
            },
            ClipEdit::MaskSaturation(i, v) => {
                let l = self.layer(i as int);
                self.with_adjust(i as int, l.brightness, l.contrast, v, l.opacity, l.blur_sigma)
            },
            ClipEdit::MaskOpacity(i, v) => {
                let l = self.layer(i as int);
                self.with_adjust(i as int, l.brightness, l.contrast, l.saturation, v, l.blur_sigma)
            },
            ClipEdit::MaskBlur(i, v) => {
                let l = self.layer(i as int);
                self.with_adjust(i as int, l.brightness, l.contrast, l.saturation, l.opacity, v)
            },
        }
    }
}

/// The size of a zoom or jump, between 0.1 and 4.
pub open spec fn amount_in_range(amount: Scalar) -> Scalar {
    amount.clamped(
        Scalar { bits: crate::clip_effects::TENTH },
        Scalar { bits: crate::clip_effects::FOUR },
    )
}

impl Clip {
    fn keys_of(&self, channel: ClipKeyframeChannel) -> (keys: &Vec<ScalarKeyframe>)
        ensures
            keys@ == self@.keyframes.of(channel),
    {
        match channel {
            ClipKeyframeChannel::PosX => &self.pos_x_keyframes,
            ClipKeyframeChannel::PosY => &self.pos_y_keyframes,
            ClipKeyframeChannel::Scale => &self.scale_keyframes,
            ClipKeyframeChannel::Rotation => &self.rotation_keyframes,
            ClipKeyframeChannel::Brightness => &self.brightness_keyframes,
            ClipKeyframeChannel::Contrast => &self.contrast_keyframes,
            ClipKeyframeChannel::Saturation => &self.saturation_keyframes,
            ClipKeyframeChannel::Opacity => &self.opacity_keyframes,
            ClipKeyframeChannel::Blur => &self.blur_keyframes,
        }
    }

    fn has_key_at(&self, channel: ClipKeyframeChannel, t: Duration) -> (yes: bool)
        ensures
            yes == self@.has_key_at(channel, t@),
    {
        index_at(self.keys_of(channel), t, Duration { nanos: KEYFRAME_REACH }).is_some()
    }

    fn set_key(&mut self, channel: ClipKeyframeChannel, t: Duration, value: Scalar)
        ensures
            final(self)@ == old(self)@.with_key(channel, t@, value),
    {
        match channel {
            ClipKeyframeChannel::PosX => self.set_pos_x_keyframe(t, value),
            ClipKeyframeChannel::PosY => self.set_pos_y_keyframe(t, value),
            ClipKeyframeChannel::Scale => self.set_scale_keyframe(t, value),
            ClipKeyframeChannel::Rotation => self.set_rotation_keyframe(t, value),
            ClipKeyframeChannel::Brightness => self.set_brightness_keyframe(t, value),
            ClipKeyframeChannel::Contrast => self.set_contrast_keyframe(t, value),
            ClipKeyframeChannel::Saturation => self.set_saturation_keyframe(t, value),
            ClipKeyframeChannel::Opacity => self.set_opacity_keyframe(t, value),
            ClipKeyframeChannel::Blur => self.set_blur_keyframe(t, value),
        }
    }

    fn set_base(&mut self, channel: ClipKeyframeChannel, value: Scalar)
        ensures
            final(self)@ == old(self)@.with_base(channel, value),
    {
        match channel {
            ClipKeyframeChannel::PosX => self.set_pos_x(value),
            ClipKeyframeChannel::PosY => self.set_pos_y(value),
            ClipKeyframeChannel::Scale => self.set_scale(value),
            ClipKeyframeChannel::Rotation => self.set_rotation(value),
            ClipKeyframeChannel::Brightness => self.set_brightness(value),
            ClipKeyframeChannel::Contrast => self.set_contrast(value),
            ClipKeyframeChannel::Saturation => self.set_saturation(value),
            ClipKeyframeChannel::Opacity => self.set_opacity(value),
            ClipKeyframeChannel::Blur => self.set_blur_sigma(value),
        }
    }

    /// The value of a channel at a time, at the latest at the clip's end.
    pub fn sample_channel(&self, channel: ClipKeyframeChannel, t: Duration) -> (sample: Sample)
        ensures
            sample == self@.sample(channel, t@),
    {
        match channel {
            ClipKeyframeChannel::PosX => self.sample_pos_x(t),
            ClipKeyframeChannel::PosY => self.sample_pos_y(t),
            ClipKeyframeChannel::Scale => self.sample_scale(t),
            ClipKeyframeChannel::Rotation => self.sample_rotation(t),
            ClipKeyframeChannel::Brightness => self.sample_brightness(t),
            ClipKeyframeChannel::Contrast => self.sample_contrast(t),
            ClipKeyframeChannel::Saturation => self.sample_saturation(t),
            ClipKeyframeChannel::Opacity => self.sample_opacity(t),
            ClipKeyframeChannel::Blur => self.sample_blur(t),
        }
    }

    /// The value of a channel at the playhead, or for the whole clip where the playhead
    /// does not stand on it.
    fn sample_here(&self, playhead: Duration, channel: ClipKeyframeChannel) -> (sample: Sample)
        ensures
            sample == self@.sampled_here(playhead@, channel),
    {
        match clip_local_time(playhead, self) {
            Some(t) => self.sample_channel(channel, t),
            None => Sample::At(self.base_of(channel)),
        }
    }

    fn base_of(&self, channel: ClipKeyframeChannel) -> (value: Scalar)
        ensures
            value == self@.base_value(channel),
    {
        match channel {
            ClipKeyframeChannel::PosX => self.get_pos_x(),
            ClipKeyframeChannel::PosY => self.get_pos_y(),
            ClipKeyframeChannel::Scale => self.get_scale(),
            ClipKeyframeChannel::Rotation => self.get_rotation(),
            ClipKeyframeChannel::Brightness => self.get_brightness(),
            ClipKeyframeChannel::Contrast => self.get_contrast(),
            ClipKeyframeChannel::Saturation => self.get_saturation(),
            ClipKeyframeChannel::Opacity => self.get_opacity(),
            ClipKeyframeChannel::Blur => self.get_blur_sigma(),
        }
    }

    fn set_value(&mut self, playhead: Duration, channel: ClipKeyframeChannel, value: Scalar)
        ensures
            final(self)@ == old(self)@.with_value(playhead@, channel, value),
    {
        if let Some(t) = clip_local_time(playhead, self) {
            if self.has_key_at(channel, t) {
                self.set_key(channel, t, value);
                return;
            }
        }
        self.set_base(channel, value);
    }

    fn add_key_here(&mut self, playhead: Duration, channel: ClipKeyframeChannel, on_line: Scalar)
        ensures
            final(self)@ == old(self)@.with_key_here(playhead@, channel, on_line),
    {
        if let Some(t) = clip_local_time(playhead, self) {
            let value = match self.sample_channel(channel, t) {
                Sample::At(value) => value,
                Sample::Between { .. } => on_line,
            };
            self.set_key(channel, t, value);
        }
    }

    fn has_key_here(&self, playhead: Duration, channel: ClipKeyframeChannel) -> (yes: bool)
        ensures
            yes == self@.has_key_here(playhead@, channel),
    {
        match clip_local_time(playhead, self) {
            Some(t) => self.has_key_at(channel, t),
            None => false,
        }
    }

    fn remove_key_here(&mut self, playhead: Duration, channel: ClipKeyframeChannel)
        ensures
            final(self)@ == old(self)@.without_key_here(playhead@, channel),
    {
        let t = match clip_local_time(playhead, self) {
            Some(t) => t,
            None => return,
        };
        let at = match index_at(self.keys_of(channel), t, Duration { nanos: KEYFRAME_REACH }) {
            Some(at) => at,
            None => return,
        };
        match channel {
            ClipKeyframeChannel::PosX => {
                self.pos_x_keyframes.remove(at);
            },
            ClipKeyframeChannel::PosY => {
                self.pos_y_keyframes.remove(at);
            },
            ClipKeyframeChannel::Scale => {
                self.scale_keyframes.remove(at);
            },
            ClipKeyframeChannel::Rotation => {
                self.rotation_keyframes.remove(at);
            },
            ClipKeyframeChannel::Brightness => {
                self.brightness_keyframes.remove(at);
            },
            ClipKeyframeChannel::Contrast => {
                self.contrast_keyframes.remove(at);
            },
            ClipKeyframeChannel::Saturation => {
                self.saturation_keyframes.remove(at);
            },
            ClipKeyframeChannel::Opacity => {
                self.opacity_keyframes.remove(at);
            },
            ClipKeyframeChannel::Blur => {
                self.blur_keyframes.remove(at);
            },
        }
    }

    fn edit_transition(&mut self, edit: ClipEdit)
        requires
            edit is SlideIn || edit is SlideOut || edit is SlideInDirection || edit
                is SlideOutDirection || edit is ZoomIn || edit is ZoomOut || edit is ZoomAmount
                || edit is ShockIn || edit is ShockOut || edit is ShockAmount || edit
                is OverlayHue || edit is OverlaySaturation || edit is OverlayLightness || edit
                is OverlayAlpha,
        ensures
            final(self)@ == old(self)@.edited(0, edit),
    {
        let (in_dir, out_dir, slide_in, slide_out) = self.get_slide();
        let (zoom_in, zoom_out, zoom_amount) = self.get_zoom();
        let (shock_in, shock_out, shock_amount) = self.get_shock_zoom();
        let (hue, saturation, lightness, alpha) = self.get_hsla_overlay();
        match edit {
            ClipEdit::SlideIn(v) => self.set_slide(in_dir, out_dir, v, slide_out),
            ClipEdit::SlideOut(v) => self.set_slide(in_dir, out_dir, slide_in, v),
            ClipEdit::SlideInDirection(d) => self.set_slide(d, out_dir, slide_in, slide_out),
            ClipEdit::SlideOutDirection(d) => self.set_slide(in_dir, d, slide_in, slide_out),
            ClipEdit::ZoomIn(v) => self.set_zoom(v, zoom_out, zoom_amount),
            ClipEdit::ZoomOut(v) => self.set_zoom(zoom_in, v, zoom_amount),
            ClipEdit::ZoomAmount(v) => self.set_zoom(zoom_in, zoom_out, v),
            ClipEdit::ShockIn(v) => self.set_shock_zoom(v, shock_out, shock_amount),
            ClipEdit::ShockOut(v) => self.set_shock_zoom(shock_in, v, shock_amount),
            ClipEdit::ShockAmount(v) => self.set_shock_zoom(shock_in, shock_out, v),
            ClipEdit::OverlayHue(v) => self.set_hsla_overlay(v, saturation, lightness, alpha),
            ClipEdit::OverlaySaturation(v) => self.set_hsla_overlay(hue, v, lightness, alpha),
            ClipEdit::OverlayLightness(v) => self.set_hsla_overlay(hue, saturation, v, alpha),
            ClipEdit::OverlayAlpha(v) => self.set_hsla_overlay(hue, saturation, lightness, v),
            _ => {},
        }
    }

    /// Changes the clip, where the playhead stands at the given time.
    pub fn edit(&mut self, playhead: Duration, edit: ClipEdit)
        ensures
            final(self)@ == old(self)@.edited(playhead@, edit),
    {
        match edit {
            ClipEdit::Channel(channel, v) => self.set_value(playhead, channel, v),
            ClipEdit::AddKey(channel, v) => self.add_key_here(playhead, channel, v),
            ClipEdit::RemoveKey(channel) => self.remove_key_here(playhead, channel),
            ClipEdit::FadeIn(v) => self.set_fade_in(v),
            ClipEdit::FadeOut(v) => self.set_fade_out(v),
            ClipEdit::AddMaskLayer => {
                self.add_local_mask_layer();
            },
            ClipEdit::MaskEnabled(i, v) => {
                let l = self.mask_layer(i);
                self.set_local_mask_layer(i, v, l.center_x, l.center_y, l.radius, l.feather, l.strength);
            },
            ClipEdit::MaskCenterX(i, v) => {
                let l = self.mask_layer(i);
                self.set_local_mask_layer(i, l.enabled, v, l.center_y, l.radius, l.feather, l.strength);
            },
            ClipEdit::MaskCenterY(i, v) => {
                let l = self.mask_layer(i);
                self.set_local_mask_layer(i, l.enabled, l.center_x, v, l.radius, l.feather, l.strength);
            },
            ClipEdit::MaskRadius(i, v) => {
                let l = self.mask_layer(i);
                self.set_local_mask_layer(i, l.enabled, l.center_x, l.center_y, v, l.feather, l.strength);
            },
            ClipEdit::MaskFeather(i, v) => {
                let l = self.mask_layer(i);
                self.set_local_mask_layer(i, l.enabled, l.center_x, l.center_y, l.radius, v, l.strength);
            },
            ClipEdit::MaskStrength(i, v) => {
                let l = self.mask_layer(i);
                self.set_local_mask_layer(i, l.enabled, l.center_x, l.center_y, l.radius, l.feather, v);
            },
            ClipEdit::MaskBrightness(i, v) => {
                let l = self.mask_layer(i);
                self.set_local_mask_adjust_layer(i, v, l.contrast, l.saturation, l.opacity, l.blur_sigma);
            },
            ClipEdit::MaskContrast(i, v) => {
                let l = self.mask_layer(i);
                self.set_local_mask_adjust_layer(i, l.brightness, v, l.saturation, l.opacity, l.blur_sigma);
            },
            ClipEdit::MaskSaturation(i, v) => {
                let l = self.mask_layer(i);
                self.set_local_mask_adjust_layer(i, l.brightness, l.contrast, v, l.opacity, l.blur_sigma);
            },
            ClipEdit::MaskOpacity(i, v) => {
                let l = self.mask_layer(i);
                self.set_local_mask_adjust_layer(i, l.brightness, l.contrast, l.saturation, v, l.blur_sigma);
            },
            ClipEdit::MaskBlur(i, v) => {
                let l = self.mask_layer(i);
                self.set_local_mask_adjust_layer(i, l.brightness, l.contrast, l.saturation, l.opacity, v);
            },
            _ => self.edit_transition(edit),
        }
    }
}

impl ClipView {
    /// The value of a channel at the playhead, or for the whole clip where the playhead
    /// does not stand on it.
    pub open spec fn sampled_here(self, playhead: int, channel: ClipKeyframeChannel) -> Sample {
        match local_time(playhead, self) {
            Some(t) => self.sample(channel, t),
            None => Sample::At(self.base_value(channel)),
        }
    }
}

impl TimelineView {
    /// The clip with the id in a row of pictures, if there is one.
    pub open spec fn picture(self, clip_id: u64) -> Option<ClipView> {
        let i = self.picture_lane(clip_id);
        if i < self.lane_count() {
            Some(self.lane(i)[place_of(self.lane(i), clip_id)])
        } else {
            None
        }
    }

    /// The timeline with the clip in a row of pictures replaced.
    pub open spec fn with_picture(self, clip_id: u64, c: ClipView) -> TimelineView {
        let i = self.picture_lane(clip_id);
        self.with_lane(i, self.lane(i).update(place_of(self.lane(i), clip_id), c))
    }

    /// The timeline with a change of the clip, if it is in a row of pictures.
    #[verifier::opaque]
    pub open spec fn picture_edited(self, clip_id: u64, edit: ClipEdit) -> TimelineView {
        match self.picture(clip_id) {
            Some(c) => self.with_picture(clip_id, c.edited(self.playhead, edit)),
            None => self,
        }
    }
}

impl StateView {
    /// The selected clip in a row of pictures, if there is one.
    pub open spec fn selected_picture(self) -> Option<ClipView> {
        match self.selection.selected_clip_id {
            Some(id) => self.timeline.picture(id),
            None => None,
        }
    }

    /// The state with a change of the selected clip.
    pub open spec fn selected_edited(self, edit: ClipEdit) -> StateView {
        match self.selection.selected_clip_id {
            Some(id) => {
                let s = self.saved(false);
                StateView { timeline: s.timeline.picture_edited(id, edit), ..s }
            },
            None => self,
        }
    }
}

impl Timeline {
    fn edit_picture(&mut self, clip_id: u64, edit: ClipEdit)
        requires
            old(self)@.lane_count() <= usize::MAX,
        ensures
            final(self)@ == old(self)@.picture_edited(clip_id, edit),
    {
        reveal(TimelineView::picture_edited);
        let i = self.picture_lane(clip_id);
        if i >= self.lane_count() {
            return;
        }
        let playhead = self.playhead;
        let lane = self.lane_mut(i);
        let at = find_clip(lane, clip_id);
        let ghost before = lane@;
        lane[at].edit(playhead, edit);
        assert(lane@ =~= before.update(at as int, lane@[at as int]));
    }

    /// The clip with the id in a row of pictures.
    pub(crate) fn picture(&self, clip_id: u64) -> (c: Option<&Clip>)
        requires
            self@.lane_count() <= usize::MAX,
        ensures
            c is Some == self@.picture(clip_id) is Some,
            c is Some ==> c->0@ == self@.picture(clip_id)->0,
    {
        let i = self.picture_lane(clip_id);
        if i >= self.lane_count() {
            return None;
        }
        let lane = self.lane(i);
        let at = find_clip(lane, clip_id);
        Some(&lane[at])
    }
}

impl GlobalState {
    /// The selected clip in a row of pictures.
    pub fn selected_picture(&self) -> (c: Option<&Clip>)
        requires
            self@.timeline.lane_count() <= usize::MAX,
        ensures
            c is Some == self@.selected_picture() is Some,
            c is Some ==> c->0@ == self@.selected_picture()->0,
    {
        match self.selection.selected_clip_id {
            Some(id) => self.timeline.picture(id),
            None => None,
        }
    }

    /// Changes the selected clip.
    pub fn edit_selected_clip(&mut self, edit: ClipEdit)
        requires
            old(self)@.timeline.lane_count() <= usize::MAX,
        ensures
            final(self)@ == old(self)@.selected_edited(edit),
    {
        let id = match self.selection.selected_clip_id {
            Some(id) => id,
            None => return,
        };
        self.save_for_undo();
        self.timeline.edit_picture(id, edit);
    }

    /// Sets the place from left to right of the selected clip at the playhead.
    pub fn set_selected_clip_pos_x(&mut self, val: Scalar)
        requires
            old(self)@.timeline.lane_count() <= usize::MAX,
        ensures
            final(self)@ == old(self)@.selected_edited(
                ClipEdit::Channel(ClipKeyframeChannel::PosX, val.clamped(Scalar { bits: MINUS_ONE }, Scalar { bits: ONE })),
            ),
    {
        let set = val.clamp(Scalar { bits: MINUS_ONE }, Scalar { bits: ONE });
        self.edit_selected_clip(ClipEdit::Channel(ClipKeyframeChannel::PosX, set));
    }

    /// Sets the place from top to bottom of the selected clip at the playhead.
    pub fn set_selected_clip_pos_y(&mut self, val: Scalar)
        requires
            old(self)@.timeline.lane_count() <= usize::MAX,
        ensures
            final(self)@ == old(self)@.selected_edited(
                ClipEdit::Channel(ClipKeyframeChannel::PosY, val.clamped(Scalar { bits: MINUS_ONE }, Scalar { bits: ONE })),
            ),
    {
        let set = val.clamp(Scalar { bits: MINUS_ONE }, Scalar { bits: ONE });
        self.edit_selected_clip(ClipEdit::Channel(ClipKeyframeChannel::PosY, set));
    }

    /// Sets the scale of the selected clip at the playhead.
    pub fn set_selected_clip_scale(&mut self, val: Scalar)
        requires
            old(self)@.timeline.lane_count() <= usize::MAX,
        ensures
            final(self)@ == old(self)@.selected_edited(
                ClipEdit::Channel(ClipKeyframeChannel::Scale, val.clamped(Scalar { bits: HUNDREDTH }, Scalar { bits: FIVE })),
            ),
    {
        let set = val.clamp(Scalar { bits: HUNDREDTH }, Scalar { bits: FIVE });
        self.edit_selected_clip(ClipEdit::Channel(ClipKeyframeChannel::Scale, set));
    }

    /// Sets the rotation of the selected clip at the playhead.
    pub fn set_selected_clip_rotation(&mut self, val: Scalar)
        requires
            old(self)@.timeline.lane_count() <= usize::MAX,
        ensures
            final(self)@ == old(self)@.selected_edited(
                ClipEdit::Channel(ClipKeyframeChannel::Rotation, val.clamped(Scalar { bits: MINUS_HALF_TURN }, Scalar { bits: HALF_TURN })),
            ),
    {
        let set = val.clamp(Scalar { bits: MINUS_HALF_TURN }, Scalar { bits: HALF_TURN });
        self.edit_selected_clip(ClipEdit::Channel(ClipKeyframeChannel::Rotation, set));
    }

    /// Sets the contrast of the selected clip at the playhead.
    pub fn set_selected_clip_contrast(&mut self, val: Scalar)
        requires
            old(self)@.timeline.lane_count() <= usize::MAX,
        ensures
            final(self)@ == old(self)@.selected_edited(
                ClipEdit::Channel(ClipKeyframeChannel::Contrast, val.clamped(Scalar { bits: ZERO }, Scalar { bits: TWO })),
            ),
    {
        let set = val.clamp(Scalar { bits: ZERO }, Scalar { bits: TWO });
        self.edit_selected_clip(ClipEdit::Channel(ClipKeyframeChannel::Contrast, set));
    }

    /// Sets the saturation of the selected clip at the playhead.
    pub fn set_selected_clip_saturation(&mut self, val: Scalar)
        requires
            old(self)@.timeline.lane_count() <= usize::MAX,
        ensures
            final(self)@ == old(self)@.selected_edited(
                ClipEdit::Channel(ClipKeyframeChannel::Saturation, val.clamped(Scalar { bits: ZERO }, Scalar { bits: TWO })),
            ),
    {
        let set = val.clamp(Scalar { bits: ZERO }, Scalar { bits: TWO });
        self.edit_selected_clip(ClipEdit::Channel(ClipKeyframeChannel::Saturation, set));
    }

    /// Sets the opacity of the selected clip at the playhead.
    pub fn set_selected_clip_opacity(&mut self, val: Scalar)
        requires
            old(self)@.timeline.lane_count() <= usize::MAX,
        ensures
            final(self)@ == old(self)@.selected_edited(
                ClipEdit::Channel(ClipKeyframeChannel::Opacity, val.clamped(Scalar { bits: ZERO }, Scalar { bits: ONE })),
            ),
    {
        let set = val.clamp(Scalar { bits: ZERO }, Scalar { bits: ONE });
        self.edit_selected_clip(ClipEdit::Channel(ClipKeyframeChannel::Opacity, set));
    }

    /// Sets the blur of the selected clip at the playhead.
    pub fn set_selected_clip_blur_sigma(&mut self, val: Scalar)
        requires
            old(self)@.timeline.lane_count() <= usize::MAX,
        ensures
            final(self)@ == old(self)@.selected_edited(
                ClipEdit::Channel(ClipKeyframeChannel::Blur, val.clamped(Scalar { bits: ZERO }, Scalar { bits: SIXTY_FOUR })),
            ),
    {
        let set = val.clamp(Scalar { bits: ZERO }, Scalar { bits: SIXTY_FOUR });
        self.edit_selected_clip(ClipEdit::Channel(ClipKeyframeChannel::Blur, set));
    }

    /// Sets the brightness of the selected clip at the playhead, unless it is `unchanged`.
    pub fn set_selected_clip_brightness(&mut self, val: Scalar, unchanged: bool)
        requires
            old(self)@.timeline.lane_count() <= usize::MAX,
        ensures
            final(self)@ == if unchanged {
                old(self)@
            } else {
                old(self)@.selected_edited(
                    ClipEdit::Channel(
                        ClipKeyframeChannel::Brightness,
                        val.clamped(Scalar { bits: MINUS_ONE }, Scalar { bits: ONE }),
                    ),
                )
            },
    {
        if unchanged {
            return;
        }
        let set = val.clamp(Scalar { bits: MINUS_ONE }, Scalar { bits: ONE });
        self.edit_selected_clip(ClipEdit::Channel(ClipKeyframeChannel::Brightness, set));
    }

    /// Sets the length of the fade at the start of the selected clip, unless it is `unchanged`.
    pub fn set_selected_clip_fade_in(&mut self, val: Scalar, unchanged: bool)
        requires
            old(self)@.timeline.lane_count() <= usize::MAX,
        ensures
            final(self)@ == if unchanged {
                old(self)@
            } else {
                old(self)@.selected_edited(ClipEdit::FadeIn(val.larger(Scalar { bits: ZERO })))
            },
    {
        if unchanged {
            return;
        }
        let set = val.max(Scalar { bits: ZERO });
        self.edit_selected_clip(ClipEdit::FadeIn(set));
    }

    /// Sets the length of the fade at the end of the selected clip, unless it is `unchanged`.
    pub fn set_selected_clip_fade_out(&mut self, val: Scalar, unchanged: bool)
        requires
            old(self)@.timeline.lane_count() <= usize::MAX,
        ensures
            final(self)@ == if unchanged {
                old(self)@
            } else {
                old(self)@.selected_edited(ClipEdit::FadeOut(val.larger(Scalar { bits: ZERO })))
            },
    {
        if unchanged {
            return;
        }
        let set = val.max(Scalar { bits: ZERO });
        self.edit_selected_clip(ClipEdit::FadeOut(set));
    }

    /// Sets how long the selected clip slides in.
    pub fn set_selected_clip_slide_in(&mut self, val: Scalar)
        requires
            old(self)@.timeline.lane_count() <= usize::MAX,
        ensures
            final(self)@ == old(self)@.selected_edited(
                ClipEdit::SlideIn(val.larger(Scalar { bits: ZERO })),
            ),
    {
        let set = val.max(Scalar { bits: ZERO });
        self.edit_selected_clip(ClipEdit::SlideIn(set));
    }

    /// Sets how long the selected clip slides out.
    pub fn set_selected_clip_slide_out(&mut self, val: Scalar)
        requires
            old(self)@.timeline.lane_count() <= usize::MAX,
        ensures
            final(self)@ == old(self)@.selected_edited(
                ClipEdit::SlideOut(val.larger(Scalar { bits: ZERO })),
            ),
    {
        let set = val.max(Scalar { bits: ZERO });
        self.edit_selected_clip(ClipEdit::SlideOut(set));
    }

    /// Sets how long the selected clip zooms in.
    pub fn set_selected_clip_zoom_in(&mut self, val: Scalar)
        requires
            old(self)@.timeline.lane_count() <= usize::MAX,
        ensures
            final(self)@ == old(self)@.selected_edited(
                ClipEdit::ZoomIn(val.larger(Scalar { bits: ZERO })),
            ),
    {
        let set = val.max(Scalar { bits: ZERO });
        self.edit_selected_clip(ClipEdit::ZoomIn(set));
    }

    /// Sets how long the selected clip zooms out.
    pub fn set_selected_clip_zoom_out(&mut self, val: Scalar)
        requires
            old(self)@.timeline.lane_count() <= usize::MAX,
        ensures
            final(self)@ == old(self)@.selected_edited(
                ClipEdit::ZoomOut(val.larger(Scalar { bits: ZERO })),
            ),
    {
        let set = val.max(Scalar { bits: ZERO });
        self.edit_selected_clip(ClipEdit::ZoomOut(set));
    }

    /// Sets how far the selected clip zooms.
    pub fn set_selected_clip_zoom_amount(&mut self, val: Scalar)
        requires
            old(self)@.timeline.lane_count() <= usize::MAX,
        ensures
            final(self)@ == old(self)@.selected_edited(
                ClipEdit::ZoomAmount(amount_in_range(val)),
            ),
    {
        let set = val.clamp(Scalar { bits: crate::clip_effects::TENTH }, Scalar { bits: crate::clip_effects::FOUR });
        self.edit_selected_clip(ClipEdit::ZoomAmount(set));
    }

    /// Sets how long the selected clip jumps in.
    pub fn set_selected_clip_shock_zoom_in(&mut self, val: Scalar)
        requires
            old(self)@.timeline.lane_count() <= usize::MAX,
        ensures
            final(self)@ == old(self)@.selected_edited(
                ClipEdit::ShockIn(val.larger(Scalar { bits: ZERO })),
            ),
    {
        let set = val.max(Scalar { bits: ZERO });
        self.edit_selected_clip(ClipEdit::ShockIn(set));
    }

    /// Sets how long the selected clip jumps out.
    pub fn set_selected_clip_shock_zoom_out(&mut self, val: Scalar)
        requires
            old(self)@.timeline.lane_count() <= usize::MAX,
        ensures
            final(self)@ == old(self)@.selected_edited(
                ClipEdit::ShockOut(val.larger(Scalar { bits: ZERO })),
            ),
    {
        let set = val.max(Scalar { bits: ZERO });
        self.edit_selected_clip(ClipEdit::ShockOut(set));
    }

    /// Sets how far the selected clip jumps.
    pub fn set_selected_clip_shock_zoom_amount(&mut self, val: Scalar)
        requires
            old(self)@.timeline.lane_count() <= usize::MAX,
        ensures
            final(self)@ == old(self)@.selected_edited(
                ClipEdit::ShockAmount(amount_in_range(val)),
            ),
    {
        let set = val.clamp(Scalar { bits: crate::clip_effects::TENTH }, Scalar { bits: crate::clip_effects::FOUR });
        self.edit_selected_clip(ClipEdit::ShockAmount(set));
    }

    /// Sets from where the selected clip slides in.
    pub fn set_selected_clip_slide_in_direction(&mut self, dir: SlideDirection)
        requires
            old(self)@.timeline.lane_count() <= usize::MAX,
        ensures
            final(self)@ == old(self)@.selected_edited(
                ClipEdit::SlideInDirection(dir),
            ),
    {
        let set = dir;
        self.edit_selected_clip(ClipEdit::SlideInDirection(set));
    }

    /// Sets to where the selected clip slides out.
    pub fn set_selected_clip_slide_out_direction(&mut self, dir: SlideDirection)
        requires
            old(self)@.timeline.lane_count() <= usize::MAX,
        ensures
            final(self)@ == old(self)@.selected_edited(
                ClipEdit::SlideOutDirection(dir),
            ),
    {
        let set = dir;
        self.edit_selected_clip(ClipEdit::SlideOutDirection(set));
    }

    /// Sets the hue of the color over the selected clip.
    pub fn set_selected_clip_hsla_overlay_hue(&mut self, val: Scalar)
        requires
            old(self)@.timeline.lane_count() <= usize::MAX,
        ensures
            final(self)@ == old(self)@.selected_edited(
                ClipEdit::OverlayHue(val.clamped(Scalar { bits: ZERO }, Scalar { bits: WHOLE_TURN })),
            ),
    {
        let set = val.clamp(Scalar { bits: ZERO }, Scalar { bits: WHOLE_TURN });
        self.edit_selected_clip(ClipEdit::OverlayHue(set));
    }

    /// Sets the saturation of the color over the selected clip.
    pub fn set_selected_clip_hsla_overlay_saturation(&mut self, val: Scalar)
        requires
            old(self)@.timeline.lane_count() <= usize::MAX,
        ensures
            final(self)@ == old(self)@.selected_edited(
                ClipEdit::OverlaySaturation(val.clamped(Scalar { bits: ZERO }, Scalar { bits: ONE })),
            ),
    {
        let set = val.clamp(Scalar { bits: ZERO }, Scalar { bits: ONE });
        self.edit_selected_clip(ClipEdit::OverlaySaturation(set));
    }

    /// Sets the lightness of the color over the selected clip.
    pub fn set_selected_clip_hsla_overlay_lightness(&mut self, val: Scalar)
        requires
            old(self)@.timeline.lane_count() <= usize::MAX,
        ensures
            final(self)@ == old(self)@.selected_edited(
                ClipEdit::OverlayLightness(val.clamped(Scalar { bits: ZERO }, Scalar { bits: ONE })),
            ),
    {
        let set = val.clamp(Scalar { bits: ZERO }, Scalar { bits: ONE });
        self.edit_selected_clip(ClipEdit::OverlayLightness(set));
    }

    /// Sets the alpha of the color over the selected clip.
    pub fn set_selected_clip_hsla_overlay_alpha(&mut self, val: Scalar)
        requires
            old(self)@.timeline.lane_count() <= usize::MAX,
        ensures
            final(self)@ == old(self)@.selected_edited(
                ClipEdit::OverlayAlpha(val.clamped(Scalar { bits: ZERO }, Scalar { bits: ONE })),
            ),
    {
        let set = val.clamp(Scalar { bits: ZERO }, Scalar { bits: ONE });
        self.edit_selected_clip(ClipEdit::OverlayAlpha(set));
    }

    /// Sets the center x of a mask layer of the selected clip.
    pub fn set_selected_clip_local_mask_center_x_at(&mut self, layer_index: usize, val: Scalar)
        requires
            old(self)@.timeline.lane_count() <= usize::MAX,
        ensures
            final(self)@ == old(self)@.selected_edited(
                ClipEdit::MaskCenterX(layer_index, val),
            ),
    {
        let set = val;
        self.edit_selected_clip(ClipEdit::MaskCenterX(layer_index, set));
    }

    /// Sets the center y of a mask layer of the selected clip.
    pub fn set_selected_clip_local_mask_center_y_at(&mut self, layer_index: usize, val: Scalar)
        requires
            old(self)@.timeline.lane_count() <= usize::MAX,
        ensures
            final(self)@ == old(self)@.selected_edited(
                ClipEdit::MaskCenterY(layer_index, val),
            ),
    {
        let set = val;
        self.edit_selected_clip(ClipEdit::MaskCenterY(layer_index, set));
    }

    /// Sets the radius of a mask layer of the selected clip.
    pub fn set_selected_clip_local_mask_radius_at(&mut self, layer_index: usize, val: Scalar)
        requires
            old(self)@.timeline.lane_count() <= usize::MAX,
        ensures
            final(self)@ == old(self)@.selected_edited(
                ClipEdit::MaskRadius(layer_index, val),
            ),
    {
        let set = val;
        self.edit_selected_clip(ClipEdit::MaskRadius(layer_index, set));
    }

    /// Sets the feather of a mask layer of the selected clip.
    pub fn set_selected_clip_local_mask_feather_at(&mut self, layer_index: usize, val: Scalar)
        requires
            old(self)@.timeline.lane_count() <= usize::MAX,
        ensures
            final(self)@ == old(self)@.selected_edited(
                ClipEdit::MaskFeather(layer_index, val),
            ),
    {
        let set = val;
        self.edit_selected_clip(ClipEdit::MaskFeather(layer_index, set));
    }

    /// Sets the strength of a mask layer of the selected clip.
    pub fn set_selected_clip_local_mask_strength_at(&mut self, layer_index: usize, val: Scalar)
        requires
            old(self)@.timeline.lane_count() <= usize::MAX,
        ensures
            final(self)@ == old(self)@.selected_edited(
                ClipEdit::MaskStrength(layer_index, val),
            ),
    {
        let set = val;
        self.edit_selected_clip(ClipEdit::MaskStrength(layer_index, set));
    }

    /// Switches a mask layer of the selected clip.
    pub fn set_selected_clip_local_mask_enabled_at(&mut self, layer_index: usize, enabled: bool)
        requires
            old(self)@.timeline.lane_count() <= usize::MAX,
        ensures
            final(self)@ == old(self)@.selected_edited(
                ClipEdit::MaskEnabled(layer_index, enabled),
            ),
    {
        let set = enabled;
        self.edit_selected_clip(ClipEdit::MaskEnabled(layer_index, set));
    }

    /// Sets the brightness in a mask layer of the selected clip.
    pub fn set_selected_clip_local_mask_adjust_brightness_at(&mut self, layer_index: usize, val: Scalar)
        requires
            old(self)@.timeline.lane_count() <= usize::MAX,
        ensures
            final(self)@ == old(self)@.selected_edited(
                ClipEdit::MaskBrightness(layer_index, val),
            ),
    {
        let set = val;
        self.edit_selected_clip(ClipEdit::MaskBrightness(layer_index, set));
    }

    /// Sets the contrast in a mask layer of the selected clip.
    pub fn set_selected_clip_local_mask_adjust_contrast_at(&mut self, layer_index: usize, val: Scalar)
        requires
            old(self)@.timeline.lane_count() <= usize::MAX,
        ensures
            final(self)@ == old(self)@.selected_edited(
                ClipEdit::MaskContrast(layer_index, val),
            ),
    {
        let set = val;
        self.edit_selected_clip(ClipEdit::MaskContrast(layer_index, set));
    }

    /// Sets the saturation in a mask layer of the selected clip.
    pub fn set_selected_clip_local_mask_adjust_saturation_at(&mut self, layer_index: usize, val: Scalar)
        requires
            old(self)@.timeline.lane_count() <= usize::MAX,
        ensures
            final(self)@ == old(self)@.selected_edited(
                ClipEdit::MaskSaturation(layer_index, val),
            ),
    {
        let set = val;
        self.edit_selected_clip(ClipEdit::MaskSaturation(layer_index, set));
    }

    /// Sets the opacity in a mask layer of the selected clip.
    pub fn set_selected_clip_local_mask_adjust_opacity_at(&mut self, layer_index: usize, val: Scalar)
        requires
            old(self)@.timeline.lane_count() <= usize::MAX,
        ensures
            final(self)@ == old(self)@.selected_edited(
                ClipEdit::MaskOpacity(layer_index, val),
            ),
    {
        let set = val;
        self.edit_selected_clip(ClipEdit::MaskOpacity(layer_index, set));
    }

    /// Sets the blur in a mask layer of the selected clip.
    pub fn set_selected_clip_local_mask_adjust_blur_sigma_at(&mut self, layer_index: usize, val: Scalar)
        requires
            old(self)@.timeline.lane_count() <= usize::MAX,
        ensures
            final(self)@ == old(self)@.selected_edited(
                ClipEdit::MaskBlur(layer_index, val),
            ),
    {
        let set = val;
        self.edit_selected_clip(ClipEdit::MaskBlur(layer_index, set));
    }

    /// Adds a mask layer to the selected clip. Gives its index, or `None` where there is no
    /// clip or as many layers as may be.
    pub fn add_selected_clip_local_mask_layer(&mut self) -> (index: Option<usize>)
        requires
            old(self)@.timeline.lane_count() <= usize::MAX,
        ensures
            final(self)@ == old(self)@.selected_edited(ClipEdit::AddMaskLayer),
            match old(self)@.selected_picture() {
                Some(c) => index is Some <==> c.local_mask_layers.len()
                    < crate::effect::MAX_LOCAL_MASK_LAYERS,
                None => index is None,
            },
            index is Some ==> index->0 == old(self)@.selected_picture()->0.with_new_layer().local_mask_layers.len()
                - 1,
    {
        let count: Option<usize> = match self.selected_picture() {
            Some(c) => Some(c.local_mask_layers.len()),
            None => None,
        };
        self.edit_selected_clip(ClipEdit::AddMaskLayer);
        match count {
            Some(n) => if n < crate::effect::MAX_LOCAL_MASK_LAYERS {
                if n == 0 {
                    Some(1)
                } else {
                    Some(n)
                }
            } else {
                None
            },
            None => None,
        }
    }

    /// Adds a keyframe of the place from left to right at the playhead to the selected clip. On the line
    /// between two keyframes its value is `on_line`.
    pub fn add_selected_clip_pos_x_keyframe(&mut self, on_line: Scalar)
        requires
            old(self)@.timeline.lane_count() <= usize::MAX,
        ensures
            final(self)@ == old(self)@.selected_edited(
                ClipEdit::AddKey(ClipKeyframeChannel::PosX, on_line),
            ),
    {
        self.edit_selected_clip(ClipEdit::AddKey(ClipKeyframeChannel::PosX, on_line));
    }

    /// Whether the selected clip has a keyframe of the place from left to right at the playhead.
    pub fn selected_clip_has_pos_x_keyframe(&self) -> (yes: bool)
        requires
            self@.timeline.lane_count() <= usize::MAX,
        ensures
            yes == self@.selected_has_key(ClipKeyframeChannel::PosX),
    {
        self.selected_has_key(ClipKeyframeChannel::PosX)
    }

    /// Adds a keyframe of the place from top to bottom at the playhead to the selected clip. On the line
    /// between two keyframes its value is `on_line`.
    pub fn add_selected_clip_pos_y_keyframe(&mut self, on_line: Scalar)
        requires
            old(self)@.timeline.lane_count() <= usize::MAX,
        ensures
            final(self)@ == old(self)@.selected_edited(
                ClipEdit::AddKey(ClipKeyframeChannel::PosY, on_line),
            ),
    {
        self.edit_selected_clip(ClipEdit::AddKey(ClipKeyframeChannel::PosY, on_line));
    }

    /// Whether the selected clip has a keyframe of the place from top to bottom at the playhead.
    pub fn selected_clip_has_pos_y_keyframe(&self) -> (yes: bool)
        requires
            self@.timeline.lane_count() <= usize::MAX,
        ensures
            yes == self@.selected_has_key(ClipKeyframeChannel::PosY),
    {
        self.selected_has_key(ClipKeyframeChannel::PosY)
    }

    /// Adds a keyframe of the scale at the playhead to the selected clip. On the line
    /// between two keyframes its value is `on_line`.
    pub fn add_selected_clip_scale_keyframe(&mut self, on_line: Scalar)
        requires
            old(self)@.timeline.lane_count() <= usize::MAX,
        ensures
            final(self)@ == old(self)@.selected_edited(
                ClipEdit::AddKey(ClipKeyframeChannel::Scale, on_line),
            ),
    {
        self.edit_selected_clip(ClipEdit::AddKey(ClipKeyframeChannel::Scale, on_line));
    }

    /// Whether the selected clip has a keyframe of the scale at the playhead.
    pub fn selected_clip_has_scale_keyframe(&self) -> (yes: bool)
        requires
            self@.timeline.lane_count() <= usize::MAX,
        ensures
            yes == self@.selected_has_key(ClipKeyframeChannel::Scale),
    {
        self.selected_has_key(ClipKeyframeChannel::Scale)
    }

    /// Adds a keyframe of the rotation at the playhead to the selected clip. On the line
    /// between two keyframes its value is `on_line`.
    pub fn add_selected_clip_rotation_keyframe(&mut self, on_line: Scalar)
        requires
            old(self)@.timeline.lane_count() <= usize::MAX,
        ensures
            final(self)@ == old(self)@.selected_edited(
                ClipEdit::AddKey(ClipKeyframeChannel::Rotation, on_line),
            ),
    {
        self.edit_selected_clip(ClipEdit::AddKey(ClipKeyframeChannel::Rotation, on_line));
    }

    /// Whether the selected clip has a keyframe of the rotation at the playhead.
    pub fn selected_clip_has_rotation_keyframe(&self) -> (yes: bool)
        requires
            self@.timeline.lane_count() <= usize::MAX,
        ensures
            yes == self@.selected_has_key(ClipKeyframeChannel::Rotation),
    {
        self.selected_has_key(ClipKeyframeChannel::Rotation)
    }

    /// Adds a keyframe of the brightness at the playhead to the selected clip. On the line
    /// between two keyframes its value is `on_line`.
    pub fn add_selected_clip_brightness_keyframe(&mut self, on_line: Scalar)
        requires
            old(self)@.timeline.lane_count() <= usize::MAX,
        ensures
            final(self)@ == old(self)@.selected_edited(
                ClipEdit::AddKey(ClipKeyframeChannel::Brightness, on_line),
            ),
    {
        self.edit_selected_clip(ClipEdit::AddKey(ClipKeyframeChannel::Brightness, on_line));
    }

    /// Whether the selected clip has a keyframe of the brightness at the playhead.
    pub fn selected_clip_has_brightness_keyframe(&self) -> (yes: bool)
        requires
            self@.timeline.lane_count() <= usize::MAX,
        ensures
            yes == self@.selected_has_key(ClipKeyframeChannel::Brightness),
    {
        self.selected_has_key(ClipKeyframeChannel::Brightness)
    }

    /// Adds a keyframe of the contrast at the playhead to the selected clip. On the line
    /// between two keyframes its value is `on_line`.
    pub fn add_selected_clip_contrast_keyframe(&mut self, on_line: Scalar)
        requires
            old(self)@.timeline.lane_count() <= usize::MAX,
        ensures
            final(self)@ == old(self)@.selected_edited(
                ClipEdit::AddKey(ClipKeyframeChannel::Contrast, on_line),
            ),
    {
        self.edit_selected_clip(ClipEdit::AddKey(ClipKeyframeChannel::Contrast, on_line));
    }

    /// Whether the selected clip has a keyframe of the contrast at the playhead.
    pub fn selected_clip_has_contrast_keyframe(&self) -> (yes: bool)
        requires
            self@.timeline.lane_count() <= usize::MAX,
        ensures
            yes == self@.selected_has_key(ClipKeyframeChannel::Contrast),
    {
        self.selected_has_key(ClipKeyframeChannel::Contrast)
    }

    /// Adds a keyframe of the saturation at the playhead to the selected clip. On the line
    /// between two keyframes its value is `on_line`.
    pub fn add_selected_clip_saturation_keyframe(&mut self, on_line: Scalar)
        requires
            old(self)@.timeline.lane_count() <= usize::MAX,
        ensures
            final(self)@ == old(self)@.selected_edited(
                ClipEdit::AddKey(ClipKeyframeChannel::Saturation, on_line),
            ),
    {
        self.edit_selected_clip(ClipEdit::AddKey(ClipKeyframeChannel::Saturation, on_line));
    }

    /// Whether the selected clip has a keyframe of the saturation at the playhead.
    pub fn selected_clip_has_saturation_keyframe(&self) -> (yes: bool)
        requires
            self@.timeline.lane_count() <= usize::MAX,
        ensures
            yes == self@.selected_has_key(ClipKeyframeChannel::Saturation),
    {
        self.selected_has_key(ClipKeyframeChannel::Saturation)
    }

    /// Adds a keyframe of the opacity at the playhead to the selected clip. On the line
    /// between two keyframes its value is `on_line`.
    pub fn add_selected_clip_opacity_keyframe(&mut self, on_line: Scalar)
        requires
            old(self)@.timeline.lane_count() <= usize::MAX,
        ensures
            final(self)@ == old(self)@.selected_edited(
                ClipEdit::AddKey(ClipKeyframeChannel::Opacity, on_line),
            ),
    {
        self.edit_selected_clip(ClipEdit::AddKey(ClipKeyframeChannel::Opacity, on_line));
    }

    /// Whether the selected clip has a keyframe of the opacity at the playhead.
    pub fn selected_clip_has_opacity_keyframe(&self) -> (yes: bool)
        requires
            self@.timeline.lane_count() <= usize::MAX,
        ensures
            yes == self@.selected_has_key(ClipKeyframeChannel::Opacity),
    {
        self.selected_has_key(ClipKeyframeChannel::Opacity)
    }

    /// Adds a keyframe of the blur at the playhead to the selected clip. On the line
    /// between two keyframes its value is `on_line`.
    pub fn add_selected_clip_blur_keyframe(&mut self, on_line: Scalar)
        requires
            old(self)@.timeline.lane_count() <= usize::MAX,
        ensures
            final(self)@ == old(self)@.selected_edited(
                ClipEdit::AddKey(ClipKeyframeChannel::Blur, on_line),
            ),
    {
        self.edit_selected_clip(ClipEdit::AddKey(ClipKeyframeChannel::Blur, on_line));
    }

    /// Whether the selected clip has a keyframe of the blur at the playhead.
    pub fn selected_clip_has_blur_keyframe(&self) -> (yes: bool)
        requires
            self@.timeline.lane_count() <= usize::MAX,
        ensures
            yes == self@.selected_has_key(ClipKeyframeChannel::Blur),
    {
        self.selected_has_key(ClipKeyframeChannel::Blur)
    }

    fn selected_has_key(&self, channel: ClipKeyframeChannel) -> (yes: bool)
        requires
            self@.timeline.lane_count() <= usize::MAX,
        ensures
            yes == self@.selected_has_key(channel),
    {
        match self.selected_picture() {
            Some(c) => c.has_key_here(self.timeline.playhead, channel),
            None => false,
        }
    }

    /// Removes the keyframe of a channel at the playhead from the selected clip. Says
    /// whether there was one.
    pub fn remove_selected_clip_keyframe_at_playhead(&mut self, channel: ClipKeyframeChannel) -> (removed:
        bool)
        requires
            old(self)@.timeline.lane_count() <= usize::MAX,
        ensures
            removed == old(self)@.selected_has_key(channel),
            final(self)@ == if removed {
                old(self)@.selected_edited(ClipEdit::RemoveKey(channel))
            } else {
                old(self)@
            },
    {
        if !self.selected_has_key(channel) {
            return false;
        }
        self.edit_selected_clip(ClipEdit::RemoveKey(channel));
        true
    }

    /// Removes the keyframe of a channel at the playhead from the selected clip, or adds
    /// one. Says whether that was possible.
    pub fn toggle_selected_clip_keyframe_at_playhead(
        &mut self,
        channel: ClipKeyframeChannel,
        on_line: Scalar,
    ) -> (done: bool)
        requires
            old(self)@.timeline.lane_count() <= usize::MAX,
        ensures
            done == (old(self)@.selected_picture() matches Some(c) && local_time(
                old(self)@.timeline.playhead,
                c,
            ) is Some),
            final(self)@ == if old(self)@.selected_has_key(channel) {
                old(self)@.selected_edited(ClipEdit::RemoveKey(channel))
            } else if done {
                old(self)@.selected_edited(ClipEdit::AddKey(channel, on_line))
            } else {
                old(self)@
            },
    {
        if self.remove_selected_clip_keyframe_at_playhead(channel) {
            return true;
        }
        if self.selected_clip_local_playhead_time().is_none() {
            return false;
        }
        self.edit_selected_clip(ClipEdit::AddKey(channel, on_line));
        true
    }

    /// The time in the selected clip at which the playhead stands.
    pub fn selected_clip_local_playhead_time(&self) -> (t: Option<Duration>)
        requires
            self@.timeline.lane_count() <= usize::MAX,
        ensures
            match self@.selected_picture() {
                Some(c) => match local_time(self@.timeline.playhead, c) {
                    Some(x) => t is Some && t->0@ == x,
                    None => t is None,
                },
                None => t is None,
            },
    {
        match self.selected_picture() {
            Some(c) => clip_local_time(self.timeline.playhead, c),
            None => None,
        }
    }

    /// The length of the selected clip, at least a millisecond.
    pub fn selected_clip_duration(&self) -> (d: Option<Duration>)
        requires
            self@.timeline.lane_count() <= usize::MAX,
        ensures
            match self@.selected_picture() {
                Some(c) => d is Some && d->0@ == greatest(c.duration, 1_000_000),
                None => d is None,
            },
    {
        match self.selected_picture() {
            Some(c) => Some(c.duration.max(Duration::from_millis(1))),
            None => None,
        }
    }

    /// The times of the keyframes of a channel of the selected clip.
    pub fn selected_clip_keyframe_times(&self, channel: ClipKeyframeChannel) -> (times: Vec<
        Duration,
    >)
        requires
            self@.timeline.lane_count() <= usize::MAX,
        ensures
            times@ == match self@.selected_picture() {
                Some(c) => c.keyframes.of(channel).map_values(|k: ScalarKeyframe| k.time),
                None => Seq::empty(),
            },
    {
        let mut times: Vec<Duration> = Vec::new();
        match self.selected_picture() {
            Some(c) => {
                let keys = c.keys_of(channel);
                let ghost all = keys@.map_values(|k: ScalarKeyframe| k.time);
                let mut i: usize = 0;
                while i < keys.len()
                    invariant
                        i <= keys.len(),
                        all == keys@.map_values(|k: ScalarKeyframe| k.time),
                        times@ == all.take(i as int),
                    decreases keys.len() - i,
                {
                    times.push(keys[i].time);
                    i = i + 1;
                    assert(all.take(i as int) =~= all.take(i - 1).push(all[i - 1]));
                }
                assert(all.take(i as int) =~= all);
            },
            None => {},
        }
        times
    }

    /// The rotation of the selected clip at the playhead.
    pub fn get_selected_clip_rotation(&self) -> (value: Option<Sample>)
        requires
            self@.timeline.lane_count() <= usize::MAX,
        ensures
            match self@.selected_picture() {
                Some(c) => value is Some && value->0 == c.sampled_here(self@.timeline.playhead, ClipKeyframeChannel::Rotation),
                None => value is None,
            },
    {
        match self.selected_picture() {
            Some(c) => Some(c.sample_here(self.timeline.playhead, ClipKeyframeChannel::Rotation)),
            None => None,
        }
    }

    /// The brightness of the selected clip at the playhead.
    pub fn get_selected_clip_brightness(&self) -> (value: Option<Sample>)
        requires
            self@.timeline.lane_count() <= usize::MAX,
        ensures
            match self@.selected_picture() {
                Some(c) => value is Some && value->0 == c.sampled_here(self@.timeline.playhead, ClipKeyframeChannel::Brightness),
                None => value is None,
            },
    {
        match self.selected_picture() {
            Some(c) => Some(c.sample_here(self.timeline.playhead, ClipKeyframeChannel::Brightness)),
            None => None,
        }
    }

    /// The contrast of the selected clip at the playhead.
    pub fn get_selected_clip_contrast(&self) -> (value: Option<Sample>)
        requires
            self@.timeline.lane_count() <= usize::MAX,
        ensures
            match self@.selected_picture() {
                Some(c) => value is Some && value->0 == c.sampled_here(self@.timeline.playhead, ClipKeyframeChannel::Contrast),
                None => value is None,
            },
    {
        match self.selected_picture() {
            Some(c) => Some(c.sample_here(self.timeline.playhead, ClipKeyframeChannel::Contrast)),
            None => None,
        }
    }

    /// The saturation of the selected clip at the playhead.
    pub fn get_selected_clip_saturation(&self) -> (value: Option<Sample>)
        requires
            self@.timeline.lane_count() <= usize::MAX,
        ensures
            match self@.selected_picture() {
                Some(c) => value is Some && value->0 == c.sampled_here(self@.timeline.playhead, ClipKeyframeChannel::Saturation),
                None => value is None,
            },
    {
        match self.selected_picture() {
            Some(c) => Some(c.sample_here(self.timeline.playhead, ClipKeyframeChannel::Saturation)),
            None => None,
        }
    }

    /// The opacity of the selected clip at the playhead.
    pub fn get_selected_clip_opacity(&self) -> (value: Option<Sample>)
        requires
            self@.timeline.lane_count() <= usize::MAX,
        ensures
            match self@.selected_picture() {
                Some(c) => value is Some && value->0 == c.sampled_here(self@.timeline.playhead, ClipKeyframeChannel::Opacity),
                None => value is None,
            },
    {
        match self.selected_picture() {
            Some(c) => Some(c.sample_here(self.timeline.playhead, ClipKeyframeChannel::Opacity)),
            None => None,
        }
    }

    /// The blur of the selected clip at the playhead.
    pub fn get_selected_clip_blur_sigma(&self) -> (value: Option<Sample>)
        requires
            self@.timeline.lane_count() <= usize::MAX,
        ensures
            match self@.selected_picture() {
                Some(c) => value is Some && value->0 == c.sampled_here(self@.timeline.playhead, ClipKeyframeChannel::Blur),
                None => value is None,
            },
    {
        match self.selected_picture() {
            Some(c) => Some(c.sample_here(self.timeline.playhead, ClipKeyframeChannel::Blur)),
            None => None,
        }
    }

    /// The scale and the place of the selected clip at the playhead.
    pub fn get_selected_clip_transform(&self) -> (value: Option<(Sample, Sample, Sample)>)
        requires
            self@.timeline.lane_count() <= usize::MAX,
        ensures
            match self@.selected_picture() {
                Some(c) => value is Some && value->0 == (
                    c.sampled_here(self@.timeline.playhead, ClipKeyframeChannel::Scale),
                    c.sampled_here(self@.timeline.playhead, ClipKeyframeChannel::PosX),
                    c.sampled_here(self@.timeline.playhead, ClipKeyframeChannel::PosY),
                ),
                None => value is None,
            },
    {
        match self.selected_picture() {
            Some(c) => Some((
                    c.sample_here(self.timeline.playhead, ClipKeyframeChannel::Scale),
                    c.sample_here(self.timeline.playhead, ClipKeyframeChannel::PosX),
                    c.sample_here(self.timeline.playhead, ClipKeyframeChannel::PosY),
                )),
            None => None,
        }
    }

    /// The length of the fade at the start of the selected clip.
    pub fn get_selected_clip_fade_in(&self) -> (value: Option<Scalar>)
        requires
            self@.timeline.lane_count() <= usize::MAX,
        ensures
            match self@.selected_picture() {
                Some(c) => value is Some && value->0 == c.effect(EffectKind::Fade)->Fade_fade_in,
                None => value is None,
            },
    {
        match self.selected_picture() {
            Some(c) => Some(c.get_fade_in()),
            None => None,
        }
    }

    /// The length of the fade at the end of the selected clip.
    pub fn get_selected_clip_fade_out(&self) -> (value: Option<Scalar>)
        requires
            self@.timeline.lane_count() <= usize::MAX,
        ensures
            match self@.selected_picture() {
                Some(c) => value is Some && value->0 == c.effect(EffectKind::Fade)->Fade_fade_out,
                None => value is None,
            },
    {
        match self.selected_picture() {
            Some(c) => Some(c.get_fade_out()),
            None => None,
        }
    }

    /// The length of the dissolve at the start of the selected clip.
    pub fn get_selected_clip_dissolve_in(&self) -> (value: Option<Scalar>)
        requires
            self@.timeline.lane_count() <= usize::MAX,
        ensures
            match self@.selected_picture() {
                Some(c) => value is Some && value->0 == c.effect(EffectKind::Dissolve)->Dissolve_dissolve_in,
                None => value is None,
            },
    {
        match self.selected_picture() {
            Some(c) => Some(c.get_dissolve_in()),
            None => None,
        }
    }

    /// The length of the dissolve at the end of the selected clip.
    pub fn get_selected_clip_dissolve_out(&self) -> (value: Option<Scalar>)
        requires
            self@.timeline.lane_count() <= usize::MAX,
        ensures
            match self@.selected_picture() {
                Some(c) => value is Some && value->0 == c.effect(EffectKind::Dissolve)->Dissolve_dissolve_out,
                None => value is None,
            },
    {
        match self.selected_picture() {
            Some(c) => Some(c.get_dissolve_out()),
            None => None,
        }
    }

    /// How many mask layers the selected clip has.
    pub fn get_selected_clip_local_mask_layer_count(&self) -> (value: Option<usize>)
        requires
            self@.timeline.lane_count() <= usize::MAX,
        ensures
            match self@.selected_picture() {
                Some(c) => value is Some && value->0 == c.shown_layers().len(),
                None => value is None,
            },
    {
        match self.selected_picture() {
            Some(c) => Some(c.local_mask_layer_count()),
            None => None,
        }
    }

    /// How the selected clip slides in and out.
    pub fn get_selected_clip_slide(&self) -> (value: Option<(SlideDirection, SlideDirection, Scalar, Scalar)>)
        requires
            self@.timeline.lane_count() <= usize::MAX,
        ensures
            match self@.selected_picture() {
                Some(c) => value is Some && value->0 == (c.effect(EffectKind::Slide)->Slide_in_direction, c.effect(EffectKind::Slide)->Slide_out_direction, c.effect(EffectKind::Slide)->Slide_slide_in, c.effect(EffectKind::Slide)->Slide_slide_out),
                None => value is None,
            },
    {
        match self.selected_picture() {
            Some(c) => Some(c.get_slide()),
            None => None,
        }
    }

    /// How the selected clip zooms in and out.
    pub fn get_selected_clip_zoom(&self) -> (value: Option<(Scalar, Scalar, Scalar)>)
        requires
            self@.timeline.lane_count() <= usize::MAX,
        ensures
            match self@.selected_picture() {
                Some(c) => value is Some && value->0 == (c.effect(EffectKind::Zoom)->Zoom_zoom_in, c.effect(EffectKind::Zoom)->Zoom_zoom_out, c.effect(EffectKind::Zoom)->Zoom_zoom_amount),
                None => value is None,
            },
    {
        match self.selected_picture() {
            Some(c) => Some(c.get_zoom()),
            None => None,
        }
    }

    /// How the selected clip jumps in and out.
    pub fn get_selected_clip_shock_zoom(&self) -> (value: Option<(Scalar, Scalar, Scalar)>)
        requires
            self@.timeline.lane_count() <= usize::MAX,
        ensures
            match self@.selected_picture() {
                Some(c) => value is Some && value->0 == (c.effect(EffectKind::ShockZoom)->ShockZoom_shock_in, c.effect(EffectKind::ShockZoom)->ShockZoom_shock_out, c.effect(EffectKind::ShockZoom)->ShockZoom_shock_amount),
                None => value is None,
            },
    {
        match self.selected_picture() {
            Some(c) => Some(c.get_shock_zoom()),
            None => None,
        }
    }

    /// The color over the selected clip.
    pub fn get_selected_clip_hsla_overlay(&self) -> (value: Option<(Scalar, Scalar, Scalar, Scalar)>)
        requires
            self@.timeline.lane_count() <= usize::MAX,
        ensures
            match self@.selected_picture() {
                Some(c) => value is Some && value->0 == (c.effect(EffectKind::Tint)->Tint_hue, c.effect(EffectKind::Tint)->Tint_saturation, c.effect(EffectKind::Tint)->Tint_lightness, c.effect(EffectKind::Tint)->Tint_alpha),
                None => value is None,
            },
    {
        match self.selected_picture() {
            Some(c) => Some(c.get_hsla_overlay()),
            None => None,
        }
    }

    /// The region of a mask layer of the selected clip.
    pub fn get_selected_clip_local_mask_layer(&self, layer_index: usize) -> (value: Option<(bool, Scalar, Scalar, Scalar, Scalar, Scalar)>)
        requires
            self@.timeline.lane_count() <= usize::MAX,
        ensures
            match self@.selected_picture() {
                Some(c) => {
                    let l = c.layer(layer_index as int);
                    value is Some && value->0 == (l.enabled, l.center_x, l.center_y, l.radius, l.feather, l.strength)
                },
                None => value is None,
            },
    {
        match self.selected_picture() {
            Some(c) => Some(c.get_local_mask_layer(layer_index)),
            None => None,
        }
    }

    /// The adjustments of a mask layer of the selected clip.
    pub fn get_selected_clip_local_mask_adjust_layer(&self, layer_index: usize) -> (value: Option<(Scalar, Scalar, Scalar, Scalar, Scalar)>)
        requires
            self@.timeline.lane_count() <= usize::MAX,
        ensures
            match self@.selected_picture() {
                Some(c) => {
                    let l = c.layer(layer_index as int);
                    value is Some && value->0 == (l.brightness, l.contrast, l.saturation, l.opacity, l.blur_sigma)
                },
                None => value is None,
            },
    {
        match self.selected_picture() {
            Some(c) => Some(c.get_local_mask_adjust_layer(layer_index)),
            None => None,
        }
    }
}

impl StateView {
    /// Whether the selected clip has a keyframe of the channel at the playhead.
    pub open spec fn selected_has_key(self, channel: ClipKeyframeChannel) -> bool {
        self.selected_picture() matches Some(c) && c.has_key_here(self.timeline.playhead, channel)
    }
}

} // verus!
