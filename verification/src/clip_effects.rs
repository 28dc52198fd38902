//! The effects on a clip's picture, one of each kind.
use crate::clip::{Clip, ClipView};
use crate::effect::{
    SlideDirection, VideoEffect, DEFAULT_FEATHER, DEFAULT_SHOCK_AMOUNT, DEFAULT_ZOOM_AMOUNT, HALF,
    MINUS_ONE, ONE, QUARTER, TWO, ZERO,
};
use crate::lists::{first, lemma_first, lemma_first_is, position_by};
use crate::scalar::Scalar;
use crate::time::Duration;
use vstd::prelude::*;

verus! {

broadcast use crate::copying::group_views;

/// The bit pattern of 64.
pub const SIXTY_FOUR: u32 = 0x4280_0000;

/// The bit pattern of 180.
pub const HALF_TURN: u32 = 0x4334_0000;

/// The bit pattern of -180.
pub const MINUS_HALF_TURN: u32 = 0xc334_0000;

/// The bit pattern of 0.1.
pub const TENTH: u32 = 0x3dcc_cccd;

/// The bit pattern of 4.
pub const FOUR: u32 = 0x4080_0000;

/// The bit pattern of a length of time in seconds, as a single-precision number.
pub uninterp spec fn seconds_bits(nanos: nat) -> u32;

/// `Duration::as_secs_f32`: the length of time in seconds, rounded to a
/// single-precision number. It depends on the length alone. It is no negative number,
/// and it is a number.
#[verifier::external_body]
fn as_seconds(whole: u64, nanos: u32) -> (bits: u32)
    requires
        nanos < 1_000_000_000,
    ensures
        bits == seconds_bits((whole * 1_000_000_000 + nanos) as nat),
        bits <= crate::scalar::INFINITE,
{
    std::time::Duration::new(whole, nanos).as_secs_f32().to_bits()
}

/// The length of time in seconds. A length past the longest counts as the longest.
pub open spec fn seconds_of(nanos: int) -> Scalar {
    Scalar { bits: seconds_bits(crate::time::least(nanos, crate::time::MAX_NANOS as int) as nat) }
}

/// The length of time in seconds.
pub fn seconds(d: Duration) -> (s: Scalar)
    ensures
        s == seconds_of(d@),
        !s.nan(),
        s.bits < crate::scalar::SIGN_BIT,
{
    let nanos: u128 = if d.nanos <= crate::time::MAX_NANOS {
        d.nanos
    } else {
        crate::time::MAX_NANOS
    };
    let whole: u64 = (nanos / 1_000_000_000) as u64;
    let part: u32 = (nanos % 1_000_000_000) as u32;
    assert(whole * 1_000_000_000 + part == nanos);
    Scalar { bits: as_seconds(whole, part) }
}

/// The kinds of effects.
#[derive(Clone, Copy, Debug, PartialEq, Eq, Structural)]
pub enum EffectKind {
    ColorCorrection,
    Transform,
    Tint,
    Opacity,
    Fade,
    Dissolve,
    Slide,
    Zoom,
    ShockZoom,
    GaussianBlur,
    LocalMask,
    LocalMaskAdjust,
    Pixelate,
}

impl EffectKind {
    /// The effect of this kind that changes nothing.
    pub open spec fn neutral(self) -> VideoEffect {
        match self {
            EffectKind::ColorCorrection => VideoEffect::ColorCorrection { brightness: Scalar { bits: ZERO }, contrast: Scalar { bits: ONE }, saturation: Scalar { bits: ONE } },
            EffectKind::Transform => VideoEffect::Transform { scale: Scalar { bits: ONE }, position_x: Scalar { bits: ZERO }, position_y: Scalar { bits: ZERO }, rotation_deg: Scalar { bits: ZERO } },
            EffectKind::Tint => VideoEffect::Tint { hue: Scalar { bits: ZERO }, saturation: Scalar { bits: ZERO }, lightness: Scalar { bits: ZERO }, alpha: Scalar { bits: ZERO } },
            EffectKind::Opacity => VideoEffect::Opacity { alpha: Scalar { bits: ONE } },
            EffectKind::Fade => VideoEffect::Fade { fade_in: Scalar { bits: ZERO }, fade_out: Scalar { bits: ZERO } },
            EffectKind::Dissolve => VideoEffect::Dissolve { dissolve_in: Scalar { bits: ZERO }, dissolve_out: Scalar { bits: ZERO } },
            EffectKind::Slide => VideoEffect::Slide { in_direction: SlideDirection::Right, out_direction: SlideDirection::Left, slide_in: Scalar { bits: ZERO }, slide_out: Scalar { bits: ZERO } },
            EffectKind::Zoom => VideoEffect::Zoom { zoom_in: Scalar { bits: ZERO }, zoom_out: Scalar { bits: ZERO }, zoom_amount: Scalar { bits: DEFAULT_ZOOM_AMOUNT } },
            EffectKind::ShockZoom => VideoEffect::ShockZoom { shock_in: Scalar { bits: ZERO }, shock_out: Scalar { bits: ZERO }, shock_amount: Scalar { bits: DEFAULT_SHOCK_AMOUNT } },
            EffectKind::GaussianBlur => VideoEffect::GaussianBlur { sigma: Scalar { bits: ZERO } },
            EffectKind::LocalMask => VideoEffect::LocalMask { enabled: false, center_x: Scalar { bits: HALF }, center_y: Scalar { bits: HALF }, radius: Scalar { bits: QUARTER }, feather: Scalar { bits: DEFAULT_FEATHER }, strength: Scalar { bits: ONE } },
            EffectKind::LocalMaskAdjust => VideoEffect::LocalMaskAdjust { brightness: Scalar { bits: ZERO }, contrast: Scalar { bits: ONE }, saturation: Scalar { bits: ONE }, opacity: Scalar { bits: ONE }, blur_sigma: Scalar { bits: ZERO } },
            EffectKind::Pixelate => VideoEffect::Pixelate { block_size: 0 },
        }
    }

    /// The effect of this kind that changes nothing.
    pub fn neutral_effect(self) -> (effect: VideoEffect)
        ensures
            effect == self.neutral(),
    {
        match self {
            EffectKind::ColorCorrection => VideoEffect::ColorCorrection { brightness: Scalar { bits: ZERO }, contrast: Scalar { bits: ONE }, saturation: Scalar { bits: ONE } },
            EffectKind::Transform => VideoEffect::Transform { scale: Scalar { bits: ONE }, position_x: Scalar { bits: ZERO }, position_y: Scalar { bits: ZERO }, rotation_deg: Scalar { bits: ZERO } },
            EffectKind::Tint => VideoEffect::Tint { hue: Scalar { bits: ZERO }, saturation: Scalar { bits: ZERO }, lightness: Scalar { bits: ZERO }, alpha: Scalar { bits: ZERO } },
            EffectKind::Opacity => VideoEffect::Opacity { alpha: Scalar { bits: ONE } },
            EffectKind::Fade => VideoEffect::Fade { fade_in: Scalar { bits: ZERO }, fade_out: Scalar { bits: ZERO } },
            EffectKind::Dissolve => VideoEffect::Dissolve { dissolve_in: Scalar { bits: ZERO }, dissolve_out: Scalar { bits: ZERO } },
            EffectKind::Slide => VideoEffect::Slide { in_direction: SlideDirection::Right, out_direction: SlideDirection::Left, slide_in: Scalar { bits: ZERO }, slide_out: Scalar { bits: ZERO } },
            EffectKind::Zoom => VideoEffect::Zoom { zoom_in: Scalar { bits: ZERO }, zoom_out: Scalar { bits: ZERO }, zoom_amount: Scalar { bits: DEFAULT_ZOOM_AMOUNT } },
            EffectKind::ShockZoom => VideoEffect::ShockZoom { shock_in: Scalar { bits: ZERO }, shock_out: Scalar { bits: ZERO }, shock_amount: Scalar { bits: DEFAULT_SHOCK_AMOUNT } },
            EffectKind::GaussianBlur => VideoEffect::GaussianBlur { sigma: Scalar { bits: ZERO } },
            EffectKind::LocalMask => VideoEffect::LocalMask { enabled: false, center_x: Scalar { bits: HALF }, center_y: Scalar { bits: HALF }, radius: Scalar { bits: QUARTER }, feather: Scalar { bits: DEFAULT_FEATHER }, strength: Scalar { bits: ONE } },
            EffectKind::LocalMaskAdjust => VideoEffect::LocalMaskAdjust { brightness: Scalar { bits: ZERO }, contrast: Scalar { bits: ONE }, saturation: Scalar { bits: ONE }, opacity: Scalar { bits: ONE }, blur_sigma: Scalar { bits: ZERO } },
            EffectKind::Pixelate => VideoEffect::Pixelate { block_size: 0 },
        }
    }
}

impl VideoEffect {
    /// The kind of the effect.
    pub open spec fn kind(self) -> EffectKind {
        match self {
            VideoEffect::ColorCorrection { .. } => EffectKind::ColorCorrection,
            VideoEffect::Transform { .. } => EffectKind::Transform,
            VideoEffect::Tint { .. } => EffectKind::Tint,
            VideoEffect::Opacity { .. } => EffectKind::Opacity,
            VideoEffect::Fade { .. } => EffectKind::Fade,
            VideoEffect::Dissolve { .. } => EffectKind::Dissolve,
            VideoEffect::Slide { .. } => EffectKind::Slide,
            VideoEffect::Zoom { .. } => EffectKind::Zoom,
            VideoEffect::ShockZoom { .. } => EffectKind::ShockZoom,
            VideoEffect::GaussianBlur { .. } => EffectKind::GaussianBlur,
            VideoEffect::LocalMask { .. } => EffectKind::LocalMask,
            VideoEffect::LocalMaskAdjust { .. } => EffectKind::LocalMaskAdjust,
            VideoEffect::Pixelate { .. } => EffectKind::Pixelate,
        }
    }

    fn kind_of(&self) -> (kind: EffectKind)
        ensures
            kind == self.kind(),
    {
        match self {
            VideoEffect::ColorCorrection { .. } => EffectKind::ColorCorrection,
            VideoEffect::Transform { .. } => EffectKind::Transform,
            VideoEffect::Tint { .. } => EffectKind::Tint,
            VideoEffect::Opacity { .. } => EffectKind::Opacity,
            VideoEffect::Fade { .. } => EffectKind::Fade,
            VideoEffect::Dissolve { .. } => EffectKind::Dissolve,
            VideoEffect::Slide { .. } => EffectKind::Slide,
            VideoEffect::Zoom { .. } => EffectKind::Zoom,
            VideoEffect::ShockZoom { .. } => EffectKind::ShockZoom,
            VideoEffect::GaussianBlur { .. } => EffectKind::GaussianBlur,
            VideoEffect::LocalMask { .. } => EffectKind::LocalMask,
            VideoEffect::LocalMaskAdjust { .. } => EffectKind::LocalMaskAdjust,
            VideoEffect::Pixelate { .. } => EffectKind::Pixelate,
        }
    }
}

/// The place of the first effect of the kind.
pub open spec fn effect_place(effects: Seq<VideoEffect>, kind: EffectKind) -> int {
    first(effects, |e: VideoEffect| e.kind() == kind)
}

/// The first effect of the kind; where there is none, the one that changes nothing.
pub open spec fn effect_in(effects: Seq<VideoEffect>, kind: EffectKind) -> VideoEffect {
    let at = effect_place(effects, kind);
    if at < effects.len() {
        effects[at]
    } else {
        kind.neutral()
    }
}

/// The effects with `e` in place of the first of its kind; behind the others where
/// there is none.
pub open spec fn effects_with(effects: Seq<VideoEffect>, e: VideoEffect) -> Seq<VideoEffect> {
    let at = effect_place(effects, e.kind());
    if at < effects.len() {
        effects.update(at, e)
    } else {
        effects.push(e)
    }
}

/// What is found of a kind is of that kind.
pub broadcast proof fn lemma_effect_kind(effects: Seq<VideoEffect>, kind: EffectKind)
    ensures
        (#[trigger] effect_in(effects, kind)).kind() == kind,
{
    lemma_first(effects, |e: VideoEffect| e.kind() == kind);
}

/// An effect that was set is the one that is found, and setting it does not touch
/// the other kinds.
pub proof fn set_effect_is_found(effects: Seq<VideoEffect>, e: VideoEffect, kind: EffectKind)
    ensures
        effect_in(effects_with(effects, e), kind) == if kind == e.kind() {
            e
        } else {
            effect_in(effects, kind)
        },
{
    let p = |x: VideoEffect| x.kind() == kind;
    let q = |x: VideoEffect| x.kind() == e.kind();
    let after = effects_with(effects, e);
    lemma_first(effects, p);
    lemma_first(effects, q);
    let at = first(effects, q);
    if kind == e.kind() {
        lemma_first_is(after, p, at);
    } else {
        let f = first(effects, p);
        if f < effects.len() {
            assert(after[f] == effects[f]);
            lemma_first_is(after, p, f);
        } else {
            assert forall|i: int| 0 <= i < after.len() implies !p(#[trigger] after[i]) by {
                if i < effects.len() && i != at {
                    assert(after[i] == effects[i]);
                }
            }
            lemma_first_is(after, p, after.len() as int);
        }
    }
}

fn find_effect(effects: &Vec<VideoEffect>, kind: EffectKind) -> (at: usize)
    ensures
        at == effect_place(effects@, kind),
        at <= effects.len(),
{
    let test = |e: &VideoEffect| -> (yes: bool)
        ensures
            yes == (e.kind() == kind),
    {
        e.kind_of() == kind
    };
    position_by(effects, test, Ghost(|e: VideoEffect| e.kind() == kind))
}

impl ClipView {
    /// The clip's effect of the kind.
    pub open spec fn effect(self, kind: EffectKind) -> VideoEffect {
        effect_in(self.video_effects, kind)
    }

    /// The clip with another effect of a kind.
    pub open spec fn with_effect(self, e: VideoEffect) -> ClipView {
        ClipView { video_effects: effects_with(self.video_effects, e), ..self }
    }

    /// A length in seconds, at most the clip's own.
    pub open spec fn fitted(self, length: Scalar) -> Scalar {
        length.clamped(Scalar { bits: ZERO }, seconds_of(self.duration))
    }

    /// Brightness, contrast and saturation.
    pub open spec fn color(self) -> (Scalar, Scalar, Scalar) {
        let e = self.effect(EffectKind::ColorCorrection);
        (
            e->ColorCorrection_brightness,
            e->ColorCorrection_contrast,
            e->ColorCorrection_saturation,
        )
    }
}

impl Clip {
    /// The clip's effect of the kind.
    pub fn effect(&self, kind: EffectKind) -> (e: VideoEffect)
        ensures
            e == self@.effect(kind),
            e.kind() == kind,
    {
        proof {
            lemma_effect_kind(self.video_effects@, kind);
        }
        let at = find_effect(&self.video_effects, kind);
        if at < self.video_effects.len() {
            self.video_effects[at]
        } else {
            kind.neutral_effect()
        }
    }

    /// Gives the clip another effect of a kind.
    pub fn set_effect(&mut self, e: VideoEffect)
        ensures
            final(self)@ == old(self)@.with_effect(e),
    {
        let at = find_effect(&self.video_effects, e.kind_of());
        if at < self.video_effects.len() {
            self.video_effects.set(at, e);
        } else {
            self.video_effects.push(e);
        }
    }

    fn fit(&self, length: Scalar) -> (s: Scalar)
        ensures
            s == self@.fitted(length),
    {
        length.clamp(Scalar { bits: ZERO }, seconds(self.duration))
    }

    /// The brightness.
    pub fn get_brightness(&self) -> (value: Scalar)
        ensures
            value == self@.effect(EffectKind::ColorCorrection)->ColorCorrection_brightness,
    {
        match self.effect(EffectKind::ColorCorrection) {
            VideoEffect::ColorCorrection { brightness, .. } => brightness,
            _ => Scalar { bits: ZERO },
        }
    }

    /// Sets the brightness.
    pub fn set_brightness(&mut self, value: Scalar)
        ensures
            final(self)@ == old(self)@.with_effect(
                VideoEffect::ColorCorrection { brightness: value, contrast: old(self)@.effect(EffectKind::ColorCorrection)->ColorCorrection_contrast, saturation: old(self)@.effect(EffectKind::ColorCorrection)->ColorCorrection_saturation },
            ),
    {
        let set = value;
        if let VideoEffect::ColorCorrection { brightness: _, contrast, saturation } = self.effect(EffectKind::ColorCorrection) {
            self.set_effect(VideoEffect::ColorCorrection { brightness: set, contrast, saturation });
        }
    }

    /// The contrast.
    pub fn get_contrast(&self) -> (value: Scalar)
        ensures
            value == self@.effect(EffectKind::ColorCorrection)->ColorCorrection_contrast,
    {
        match self.effect(EffectKind::ColorCorrection) {
            VideoEffect::ColorCorrection { contrast, .. } => contrast,
            _ => Scalar { bits: ZERO },
        }
    }

    /// Sets the contrast.
    pub fn set_contrast(&mut self, value: Scalar)
        ensures
            final(self)@ == old(self)@.with_effect(
                VideoEffect::ColorCorrection { brightness: old(self)@.effect(EffectKind::ColorCorrection)->ColorCorrection_brightness, contrast: value, saturation: old(self)@.effect(EffectKind::ColorCorrection)->ColorCorrection_saturation },
            ),
    {
        let set = value;
        if let VideoEffect::ColorCorrection { brightness, contrast: _, saturation } = self.effect(EffectKind::ColorCorrection) {
            self.set_effect(VideoEffect::ColorCorrection { brightness, contrast: set, saturation });
        }
    }

    /// The saturation.
    pub fn get_saturation(&self) -> (value: Scalar)
        ensures
            value == self@.effect(EffectKind::ColorCorrection)->ColorCorrection_saturation,
    {
        match self.effect(EffectKind::ColorCorrection) {
            VideoEffect::ColorCorrection { saturation, .. } => saturation,
            _ => Scalar { bits: ZERO },
        }
    }

    /// Sets the saturation.
    pub fn set_saturation(&mut self, value: Scalar)
        ensures
            final(self)@ == old(self)@.with_effect(
                VideoEffect::ColorCorrection { brightness: old(self)@.effect(EffectKind::ColorCorrection)->ColorCorrection_brightness, contrast: old(self)@.effect(EffectKind::ColorCorrection)->ColorCorrection_contrast, saturation: value },
            ),
    {
        let set = value;
        if let VideoEffect::ColorCorrection { brightness, contrast, saturation: _ } = self.effect(EffectKind::ColorCorrection) {
            self.set_effect(VideoEffect::ColorCorrection { brightness, contrast, saturation: set });
        }
    }

    /// The scale.
    pub fn get_scale(&self) -> (value: Scalar)
        ensures
            value == self@.effect(EffectKind::Transform)->Transform_scale,
    {
        match self.effect(EffectKind::Transform) {
            VideoEffect::Transform { scale, .. } => scale,
            _ => Scalar { bits: ZERO },
        }
    }

    /// Sets the scale.
    pub fn set_scale(&mut self, value: Scalar)
        ensures
            final(self)@ == old(self)@.with_effect(
                VideoEffect::Transform { scale: value, position_x: old(self)@.effect(EffectKind::Transform)->Transform_position_x, position_y: old(self)@.effect(EffectKind::Transform)->Transform_position_y, rotation_deg: old(self)@.effect(EffectKind::Transform)->Transform_rotation_deg },
            ),
    {
        let set = value;
        if let VideoEffect::Transform { scale: _, position_x, position_y, rotation_deg } = self.effect(EffectKind::Transform) {
            self.set_effect(VideoEffect::Transform { scale: set, position_x, position_y, rotation_deg });
        }
    }

    /// The place from left to right.
    pub fn get_pos_x(&self) -> (value: Scalar)
        ensures
            value == self@.effect(EffectKind::Transform)->Transform_position_x,
    {
        match self.effect(EffectKind::Transform) {
            VideoEffect::Transform { position_x, .. } => position_x,
            _ => Scalar { bits: ZERO },
        }
    }

    /// Sets the place from left to right.
    pub fn set_pos_x(&mut self, value: Scalar)
        ensures
            final(self)@ == old(self)@.with_effect(
                VideoEffect::Transform { scale: old(self)@.effect(EffectKind::Transform)->Transform_scale, position_x: value, position_y: old(self)@.effect(EffectKind::Transform)->Transform_position_y, rotation_deg: old(self)@.effect(EffectKind::Transform)->Transform_rotation_deg },
            ),
    {
        let set = value;
        if let VideoEffect::Transform { scale, position_x: _, position_y, rotation_deg } = self.effect(EffectKind::Transform) {
            self.set_effect(VideoEffect::Transform { scale, position_x: set, position_y, rotation_deg });
        }
    }

    /// The place from top to bottom.
    pub fn get_pos_y(&self) -> (value: Scalar)
        ensures
            value == self@.effect(EffectKind::Transform)->Transform_position_y,
    {
        match self.effect(EffectKind::Transform) {
            VideoEffect::Transform { position_y, .. } => position_y,
            _ => Scalar { bits: ZERO },
        }
    }

    /// Sets the place from top to bottom.
    pub fn set_pos_y(&mut self, value: Scalar)
        ensures
            final(self)@ == old(self)@.with_effect(
                VideoEffect::Transform { scale: old(self)@.effect(EffectKind::Transform)->Transform_scale, position_x: old(self)@.effect(EffectKind::Transform)->Transform_position_x, position_y: value, rotation_deg: old(self)@.effect(EffectKind::Transform)->Transform_rotation_deg },
            ),
    {
        let set = value;
        if let VideoEffect::Transform { scale, position_x, position_y: _, rotation_deg } = self.effect(EffectKind::Transform) {
            self.set_effect(VideoEffect::Transform { scale, position_x, position_y: set, rotation_deg });
        }
    }

    /// The rotation in degrees.
    pub fn get_rotation(&self) -> (value: Scalar)
        ensures
            value == self@.effect(EffectKind::Transform)->Transform_rotation_deg,
    {
        match self.effect(EffectKind::Transform) {
            VideoEffect::Transform { rotation_deg, .. } => rotation_deg,
            _ => Scalar { bits: ZERO },
        }
    }

    /// Sets the rotation, between half a turn to either side.
    pub fn set_rotation(&mut self, value: Scalar)
        ensures
            final(self)@ == old(self)@.with_effect(
                VideoEffect::Transform { scale: old(self)@.effect(EffectKind::Transform)->Transform_scale, position_x: old(self)@.effect(EffectKind::Transform)->Transform_position_x, position_y: old(self)@.effect(EffectKind::Transform)->Transform_position_y, rotation_deg: value.clamped(Scalar { bits: MINUS_HALF_TURN }, Scalar { bits: HALF_TURN }) },
            ),
    {
        let set = value.clamp(Scalar { bits: MINUS_HALF_TURN }, Scalar { bits: HALF_TURN });
        if let VideoEffect::Transform { scale, position_x, position_y, rotation_deg: _ } = self.effect(EffectKind::Transform) {
            self.set_effect(VideoEffect::Transform { scale, position_x, position_y, rotation_deg: set });
        }
    }

    /// The opacity.
    pub fn get_opacity(&self) -> (value: Scalar)
        ensures
            value == self@.effect(EffectKind::Opacity)->Opacity_alpha,
    {
        match self.effect(EffectKind::Opacity) {
            VideoEffect::Opacity { alpha, .. } => alpha,
            _ => Scalar { bits: ZERO },
        }
    }

    /// Sets the opacity, between 0 and 1.
    pub fn set_opacity(&mut self, value: Scalar)
        ensures
            final(self)@ == old(self)@.with_effect(VideoEffect::Opacity { alpha: value.clamped(Scalar { bits: ZERO }, Scalar { bits: ONE }) }),
    {
        let set = value.clamp(Scalar { bits: ZERO }, Scalar { bits: ONE });
        self.set_effect(VideoEffect::Opacity { alpha: set });
    }

    /// The blur.
    pub fn get_blur_sigma(&self) -> (value: Scalar)
        ensures
            value == self@.effect(EffectKind::GaussianBlur)->GaussianBlur_sigma,
    {
        match self.effect(EffectKind::GaussianBlur) {
            VideoEffect::GaussianBlur { sigma, .. } => sigma,
            _ => Scalar { bits: ZERO },
        }
    }

    /// Sets the blur, between 0 and 64.
    pub fn set_blur_sigma(&mut self, value: Scalar)
        ensures
            final(self)@ == old(self)@.with_effect(VideoEffect::GaussianBlur { sigma: value.clamped(Scalar { bits: ZERO }, Scalar { bits: SIXTY_FOUR }) }),
    {
        let set = value.clamp(Scalar { bits: ZERO }, Scalar { bits: SIXTY_FOUR });
        self.set_effect(VideoEffect::GaussianBlur { sigma: set });
    }

    /// The length of the fade at the start, in seconds.
    pub fn get_fade_in(&self) -> (value: Scalar)
        ensures
            value == self@.effect(EffectKind::Fade)->Fade_fade_in,
    {
        match self.effect(EffectKind::Fade) {
            VideoEffect::Fade { fade_in, .. } => fade_in,
            _ => Scalar { bits: ZERO },
        }
    }

    /// Sets the length of the fade at the start, at most that of the clip.
    pub fn set_fade_in(&mut self, value: Scalar)
        ensures
            final(self)@ == old(self)@.with_effect(
                VideoEffect::Fade { fade_in: old(self)@.fitted(value), fade_out: old(self)@.effect(EffectKind::Fade)->Fade_fade_out },
            ),
    {
        let set = self.fit(value);
        if let VideoEffect::Fade { fade_in: _, fade_out } = self.effect(EffectKind::Fade) {
            self.set_effect(VideoEffect::Fade { fade_in: set, fade_out });
        }
    }

    /// The length of the fade at the end, in seconds.
    pub fn get_fade_out(&self) -> (value: Scalar)
        ensures
            value == self@.effect(EffectKind::Fade)->Fade_fade_out,
    {
        match self.effect(EffectKind::Fade) {
            VideoEffect::Fade { fade_out, .. } => fade_out,
            _ => Scalar { bits: ZERO },
        }
    }

    /// Sets the length of the fade at the end, at most that of the clip.
    pub fn set_fade_out(&mut self, value: Scalar)
        ensures
            final(self)@ == old(self)@.with_effect(
                VideoEffect::Fade { fade_in: old(self)@.effect(EffectKind::Fade)->Fade_fade_in, fade_out: old(self)@.fitted(value) },
            ),
    {
        let set = self.fit(value);
        if let VideoEffect::Fade { fade_in, fade_out: _ } = self.effect(EffectKind::Fade) {
            self.set_effect(VideoEffect::Fade { fade_in, fade_out: set });
        }
    }

    /// The length of the dissolve at the start, in seconds.
    pub fn get_dissolve_in(&self) -> (value: Scalar)
        ensures
            value == self@.effect(EffectKind::Dissolve)->Dissolve_dissolve_in,
    {
        match self.effect(EffectKind::Dissolve) {
            VideoEffect::Dissolve { dissolve_in, .. } => dissolve_in,
            _ => Scalar { bits: ZERO },
        }
    }

    /// Sets the length of the dissolve at the start, at most that of the clip.
    pub fn set_dissolve_in(&mut self, value: Scalar)
        ensures
            final(self)@ == old(self)@.with_effect(
                VideoEffect::Dissolve { dissolve_in: old(self)@.fitted(value), dissolve_out: old(self)@.effect(EffectKind::Dissolve)->Dissolve_dissolve_out },
            ),
    {
        let set = self.fit(value);
        if let VideoEffect::Dissolve { dissolve_in: _, dissolve_out } = self.effect(EffectKind::Dissolve) {
            self.set_effect(VideoEffect::Dissolve { dissolve_in: set, dissolve_out });
        }
    }

    /// The length of the dissolve at the end, in seconds.
    pub fn get_dissolve_out(&self) -> (value: Scalar)
        ensures
            value == self@.effect(EffectKind::Dissolve)->Dissolve_dissolve_out,
    {
        match self.effect(EffectKind::Dissolve) {
            VideoEffect::Dissolve { dissolve_out, .. } => dissolve_out,
            _ => Scalar { bits: ZERO },
        }
    }

    /// Sets the length of the dissolve at the end, at most that of the clip.
    pub fn set_dissolve_out(&mut self, value: Scalar)
        ensures
            final(self)@ == old(self)@.with_effect(
                VideoEffect::Dissolve { dissolve_in: old(self)@.effect(EffectKind::Dissolve)->Dissolve_dissolve_in, dissolve_out: old(self)@.fitted(value) },
            ),
    {
        let set = self.fit(value);
        if let VideoEffect::Dissolve { dissolve_in, dissolve_out: _ } = self.effect(EffectKind::Dissolve) {
            self.set_effect(VideoEffect::Dissolve { dissolve_in, dissolve_out: set });
        }
    }

    /// The color over the picture.
    pub fn get_hsla_overlay(&self) -> (values: (Scalar, Scalar, Scalar, Scalar))
        ensures
            ({
                let e = self@.effect(EffectKind::Tint);
                values == (e->Tint_hue, e->Tint_saturation, e->Tint_lightness, e->Tint_alpha)
            }),
    {
        match self.effect(EffectKind::Tint) {
            VideoEffect::Tint { hue, saturation, lightness, alpha } => (hue, saturation, lightness, alpha),
            _ => (Scalar { bits: ZERO }, Scalar { bits: ZERO }, Scalar { bits: ZERO }, Scalar { bits: ZERO }),
        }
    }

    /// Lays a color over the picture.
    pub fn set_hsla_overlay(&mut self, hue: Scalar, saturation: Scalar, lightness: Scalar, alpha: Scalar)
        ensures
            final(self)@ == old(self)@.with_effect(
                VideoEffect::Tint {
                    hue: hue,
                    saturation: saturation,
                    lightness: lightness,
                    alpha: alpha,
                },
            ),
    {
        self.set_effect(VideoEffect::Tint { hue, saturation, lightness, alpha });
    }

    /// How the clip slides in and out.
    pub fn get_slide(&self) -> (values: (SlideDirection, SlideDirection, Scalar, Scalar))
        ensures
            ({
                let e = self@.effect(EffectKind::Slide);
                values == (e->Slide_in_direction, e->Slide_out_direction, e->Slide_slide_in, e->Slide_slide_out)
            }),
    {
        match self.effect(EffectKind::Slide) {
            VideoEffect::Slide { in_direction, out_direction, slide_in, slide_out } => (in_direction, out_direction, slide_in, slide_out),
            _ => (SlideDirection::Right, SlideDirection::Right, Scalar { bits: ZERO }, Scalar { bits: ZERO }),
        }
    }

    /// Sets how the clip slides in and out, for at most its own length each.
    pub fn set_slide(&mut self, in_direction: SlideDirection, out_direction: SlideDirection, slide_in: Scalar, slide_out: Scalar)
        ensures
            final(self)@ == old(self)@.with_effect(
                VideoEffect::Slide {
                    in_direction: in_direction,
                    out_direction: out_direction,
                    slide_in: old(self)@.fitted(slide_in),
                    slide_out: old(self)@.fitted(slide_out),
                },
            ),
    {
        let slide_in = self.fit(slide_in);
        let slide_out = self.fit(slide_out);
        self.set_effect(VideoEffect::Slide { in_direction, out_direction, slide_in, slide_out });
    }

    /// How the clip zooms in and out.
    pub fn get_zoom(&self) -> (values: (Scalar, Scalar, Scalar))
        ensures
            ({
                let e = self@.effect(EffectKind::Zoom);
                values == (e->Zoom_zoom_in, e->Zoom_zoom_out, e->Zoom_zoom_amount)
            }),
    {
        match self.effect(EffectKind::Zoom) {
            VideoEffect::Zoom { zoom_in, zoom_out, zoom_amount } => (zoom_in, zoom_out, zoom_amount),
            _ => (Scalar { bits: ZERO }, Scalar { bits: ZERO }, Scalar { bits: ZERO }),
        }
    }

    /// Sets how the clip zooms in and out, for at most its own length each.
    pub fn set_zoom(&mut self, zoom_in: Scalar, zoom_out: Scalar, zoom_amount: Scalar)
        ensures
            final(self)@ == old(self)@.with_effect(
                VideoEffect::Zoom {
                    zoom_in: old(self)@.fitted(zoom_in),
                    zoom_out: old(self)@.fitted(zoom_out),
                    zoom_amount: zoom_amount.clamped(Scalar { bits: TENTH }, Scalar { bits: FOUR }),
                },
            ),
    {
        let zoom_in = self.fit(zoom_in);
        let zoom_out = self.fit(zoom_out);
        let zoom_amount = zoom_amount.clamp(Scalar { bits: TENTH }, Scalar { bits: FOUR });
        self.set_effect(VideoEffect::Zoom { zoom_in, zoom_out, zoom_amount });
    }

    /// How the clip jumps in and out.
    pub fn get_shock_zoom(&self) -> (values: (Scalar, Scalar, Scalar))
        ensures
            ({
                let e = self@.effect(EffectKind::ShockZoom);
                values == (e->ShockZoom_shock_in, e->ShockZoom_shock_out, e->ShockZoom_shock_amount)
            }),
    {
        match self.effect(EffectKind::ShockZoom) {
            VideoEffect::ShockZoom { shock_in, shock_out, shock_amount } => (shock_in, shock_out, shock_amount),
            _ => (Scalar { bits: ZERO }, Scalar { bits: ZERO }, Scalar { bits: ZERO }),
        }
    }

    /// Sets how the clip jumps in and out, for at most its own length each.
    pub fn set_shock_zoom(&mut self, shock_in: Scalar, shock_out: Scalar, shock_amount: Scalar)
        ensures
            final(self)@ == old(self)@.with_effect(
                VideoEffect::ShockZoom {
                    shock_in: old(self)@.fitted(shock_in),
                    shock_out: old(self)@.fitted(shock_out),
                    shock_amount: shock_amount.clamped(Scalar { bits: TENTH }, Scalar { bits: FOUR }),
                },
            ),
    {
        let shock_in = self.fit(shock_in);
        let shock_out = self.fit(shock_out);
        let shock_amount = shock_amount.clamp(Scalar { bits: TENTH }, Scalar { bits: FOUR });
        self.set_effect(VideoEffect::ShockZoom { shock_in, shock_out, shock_amount });
    }

    /// The lengths of the fades at the start and at the end, in seconds.
    pub fn get_fade(&self) -> (values: (Scalar, Scalar))
        ensures
            values.0 == self@.effect(EffectKind::Fade)->Fade_fade_in,
            values.1 == self@.effect(EffectKind::Fade)->Fade_fade_out,
    {
        (self.get_fade_in(), self.get_fade_out())
    }

    /// The lengths of the dissolves at the start and at the end, in seconds.
    pub fn get_dissolve(&self) -> (values: (Scalar, Scalar))
        ensures
            values.0 == self@.effect(EffectKind::Dissolve)->Dissolve_dissolve_in,
            values.1 == self@.effect(EffectKind::Dissolve)->Dissolve_dissolve_out,
    {
        (self.get_dissolve_in(), self.get_dissolve_out())
    }
}

/// Colour and blur of a clip.
#[derive(Clone, Copy, Debug, PartialEq, Eq, Structural)]
pub struct PerClipColorBlurEffects {
    pub brightness: Scalar,
    pub contrast: Scalar,
    pub saturation: Scalar,
    pub blur_sigma: Scalar,
}

impl PerClipColorBlurEffects {
    /// The values, each brought into its range.
    pub open spec fn in_range(self) -> PerClipColorBlurEffects {
        PerClipColorBlurEffects {
            brightness: self.brightness.clamped(Scalar { bits: MINUS_ONE }, Scalar { bits: ONE }),
            contrast: self.contrast.clamped(Scalar { bits: ZERO }, Scalar { bits: TWO }),
            saturation: self.saturation.clamped(Scalar { bits: ZERO }, Scalar { bits: TWO }),
            blur_sigma: self.blur_sigma.clamped(Scalar { bits: ZERO }, Scalar { bits: SIXTY_FOUR }),
        }
    }

    /// The values, each brought into its range.
    pub fn normalized(self) -> (effects: PerClipColorBlurEffects)
        ensures
            effects == self.in_range(),
    {
        PerClipColorBlurEffects {
            brightness: self.brightness.clamp(Scalar { bits: MINUS_ONE }, Scalar { bits: ONE }),
            contrast: self.contrast.clamp(Scalar { bits: ZERO }, Scalar { bits: TWO }),
            saturation: self.saturation.clamp(Scalar { bits: ZERO }, Scalar { bits: TWO }),
            blur_sigma: self.blur_sigma.clamp(Scalar { bits: ZERO }, Scalar { bits: SIXTY_FOUR }),
        }
    }
}

impl Clip {
    /// The colour and blur of the clip without its keyframes, each in its range.
    pub fn base_color_blur_effects(&self) -> (effects: PerClipColorBlurEffects)
        ensures
            effects == (PerClipColorBlurEffects {
                brightness: self@.effect(EffectKind::ColorCorrection)->ColorCorrection_brightness,
                contrast: self@.effect(EffectKind::ColorCorrection)->ColorCorrection_contrast,
                saturation: self@.effect(EffectKind::ColorCorrection)->ColorCorrection_saturation,
                blur_sigma: self@.effect(EffectKind::GaussianBlur)->GaussianBlur_sigma,
            }).in_range(),
    {
        let effects = PerClipColorBlurEffects {
            brightness: self.get_brightness(),
            contrast: self.get_contrast(),
            saturation: self.get_saturation(),
            blur_sigma: self.get_blur_sigma(),
        };
        effects.normalized()
    }
}

} // verus!
