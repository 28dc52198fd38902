//! Effects on all that is shown below them for some time.
use crate::copying::{copy_list, Duplicate};
use crate::clip_effects::SIXTY_FOUR;
use crate::effect::{ScalarKeyframe, MINUS_ONE, ONE, TWO, ZERO};
use crate::export_checks::{is_near_one, is_near_zero, near_one, near_zero};
use crate::scalar::Scalar;
use crate::time::Duration;
use vstd::prelude::*;

verus! {

broadcast use crate::copying::group_views;

/// Color and blur adjustments of a layer.
#[derive(Clone, Copy, Debug, PartialEq, Eq, Structural)]
pub struct LayerColorBlurEffects {
    pub brightness: Scalar,
    pub contrast: Scalar,
    pub saturation: Scalar,
    pub blur_sigma: Scalar,
}

impl LayerColorBlurEffects {
    /// Adjustments that change nothing.
    pub open spec fn neutral() -> LayerColorBlurEffects {
        LayerColorBlurEffects {
            brightness: Scalar { bits: ZERO },
            contrast: Scalar { bits: ONE },
            saturation: Scalar { bits: ONE },
            blur_sigma: Scalar { bits: ZERO },
        }
    }

    /// The adjustments, each brought into its range.
    pub open spec fn in_range(self) -> LayerColorBlurEffects {
        LayerColorBlurEffects {
            brightness: self.brightness.clamped(Scalar { bits: MINUS_ONE }, Scalar { bits: ONE }),
            contrast: self.contrast.clamped(Scalar { bits: ZERO }, Scalar { bits: TWO }),
            saturation: self.saturation.clamped(Scalar { bits: ZERO }, Scalar { bits: TWO }),
            blur_sigma: self.blur_sigma.clamped(
                Scalar { bits: MINUS_SIXTY_FOUR },
                Scalar { bits: SIXTY_FOUR },
            ),
        }
    }

    /// Whether the adjustments are too small to be seen.
    pub open spec fn changes_nothing(self) -> bool {
        near_zero(self.brightness) && near_one(self.contrast) && near_one(self.saturation)
            && near_zero(self.blur_sigma)
    }

    /// The adjustments, each brought into its range.
    pub fn normalized(self) -> (effects: LayerColorBlurEffects)
        ensures
            effects == self.in_range(),
    {
        LayerColorBlurEffects {
            brightness: self.brightness.clamp(Scalar { bits: MINUS_ONE }, Scalar { bits: ONE }),
            contrast: self.contrast.clamp(Scalar { bits: ZERO }, Scalar { bits: TWO }),
            saturation: self.saturation.clamp(Scalar { bits: ZERO }, Scalar { bits: TWO }),
            blur_sigma: self.blur_sigma.clamp(
                Scalar { bits: MINUS_SIXTY_FOUR },
                Scalar { bits: SIXTY_FOUR },
            ),
        }
    }

    /// Whether the adjustments are too small to be seen.
    pub fn is_identity(self) -> (yes: bool)
        ensures
            yes == self.changes_nothing(),
    {
        is_near_zero(self.brightness) && is_near_one(self.contrast) && is_near_one(self.saturation)
            && is_near_zero(self.blur_sigma)
    }
}

impl Default for LayerColorBlurEffects {
    fn default() -> (effects: LayerColorBlurEffects)
        ensures
            effects == LayerColorBlurEffects::neutral(),
    {
        LayerColorBlurEffects {
            brightness: Scalar { bits: ZERO },
            contrast: Scalar { bits: ONE },
            saturation: Scalar { bits: ONE },
            blur_sigma: Scalar { bits: ZERO },
        }
    }
}

/// The bit pattern of -64.
pub const MINUS_SIXTY_FOUR: u32 = 0xc280_0000;

/// Adjustments in their range stay as they are, and neutral ones change nothing.
pub proof fn in_range_twice_is_once(e: LayerColorBlurEffects)
    ensures
        e.in_range().in_range() == e.in_range(),
        LayerColorBlurEffects::neutral().changes_nothing(),
        LayerColorBlurEffects::neutral().in_range() == LayerColorBlurEffects::neutral(),
{
}

/// An effect on a video track that works on what is below it.
#[derive(Debug)]
pub struct LayerEffectClip {
    pub id: u64,
    pub start: Duration,
    pub duration: Duration,
    pub track_index: usize,
    pub fade_in: Duration,
    pub fade_out: Duration,
    pub brightness: Scalar,
    pub contrast: Scalar,
    pub saturation: Scalar,
    pub blur_sigma: Scalar,
    pub brightness_enabled: bool,
    pub contrast_enabled: bool,
    pub saturation_enabled: bool,
    pub blur_enabled: bool,
    pub brightness_keyframes: Vec<ScalarKeyframe>,
    pub contrast_keyframes: Vec<ScalarKeyframe>,
    pub saturation_keyframes: Vec<ScalarKeyframe>,
    pub blur_keyframes: Vec<ScalarKeyframe>,
    pub motionloom_enabled: bool,
    pub motionloom_script: String,
}

/// What a layer effect holds.
pub ghost struct LayerEffectClipView {
    pub id: u64,
    pub start: int,
    pub duration: int,
    pub track_index: usize,
    pub fade_in: int,
    pub fade_out: int,
    pub brightness: Scalar,
    pub contrast: Scalar,
    pub saturation: Scalar,
    pub blur_sigma: Scalar,
    pub brightness_enabled: bool,
    pub contrast_enabled: bool,
    pub saturation_enabled: bool,
    pub blur_enabled: bool,
    pub brightness_keyframes: Seq<ScalarKeyframe>,
    pub contrast_keyframes: Seq<ScalarKeyframe>,
    pub saturation_keyframes: Seq<ScalarKeyframe>,
    pub blur_keyframes: Seq<ScalarKeyframe>,
    pub motionloom_enabled: bool,
    pub motionloom_script: Seq<char>,
}

impl View for LayerEffectClip {
    type V = LayerEffectClipView;

    open spec fn view(&self) -> LayerEffectClipView {
        LayerEffectClipView {
            id: self.id,
            start: self.start@,
            duration: self.duration@,
            track_index: self.track_index,
            fade_in: self.fade_in@,
            fade_out: self.fade_out@,
            brightness: self.brightness,
            contrast: self.contrast,
            saturation: self.saturation,
            blur_sigma: self.blur_sigma,
            brightness_enabled: self.brightness_enabled,
            contrast_enabled: self.contrast_enabled,
            saturation_enabled: self.saturation_enabled,
            blur_enabled: self.blur_enabled,
            brightness_keyframes: self.brightness_keyframes@,
            contrast_keyframes: self.contrast_keyframes@,
            saturation_keyframes: self.saturation_keyframes@,
            blur_keyframes: self.blur_keyframes@,
            motionloom_enabled: self.motionloom_enabled,
            motionloom_script: self.motionloom_script@,
        }
    }
}

impl Clone for LayerEffectClip {
    fn clone(&self) -> (copy: Self)
        ensures
            copy@ == self@,
    {
        LayerEffectClip {
            id: self.id,
            start: self.start,
            duration: self.duration,
            track_index: self.track_index,
            fade_in: self.fade_in,
            fade_out: self.fade_out,
            brightness: self.brightness,
            contrast: self.contrast,
            saturation: self.saturation,
            blur_sigma: self.blur_sigma,
            brightness_enabled: self.brightness_enabled,
            contrast_enabled: self.contrast_enabled,
            saturation_enabled: self.saturation_enabled,
            blur_enabled: self.blur_enabled,
            brightness_keyframes: copy_list(&self.brightness_keyframes),
            contrast_keyframes: copy_list(&self.contrast_keyframes),
            saturation_keyframes: copy_list(&self.saturation_keyframes),
            blur_keyframes: copy_list(&self.blur_keyframes),
            motionloom_enabled: self.motionloom_enabled,
            motionloom_script: self.motionloom_script.clone(),
        }
    }
}

impl Duplicate for LayerEffectClip {
    fn duplicate(&self) -> (copy: Self) {
        self.clone()
    }
}

} // verus!
