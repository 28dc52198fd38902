//! Effects on a clip's picture, and numbers that change over its time.
use crate::scalar::Scalar;
use crate::time::Duration;
use vstd::prelude::*;

verus! {

/// How many local mask layers a clip may have.
pub const MAX_LOCAL_MASK_LAYERS: usize = 5;

/// The bit pattern of 0.
pub const ZERO: u32 = 0;

/// The bit pattern of 1.
pub const ONE: u32 = 0x3f80_0000;

/// The bit pattern of -1.
pub const MINUS_ONE: u32 = 0xbf80_0000;

/// The bit pattern of 2.
pub const TWO: u32 = 0x4000_0000;

/// The bit pattern of 0.5.
pub const HALF: u32 = 0x3f00_0000;

/// The bit pattern of 0.25.
pub const QUARTER: u32 = 0x3e80_0000;

/// The bit pattern of 0.15.
pub const DEFAULT_FEATHER: u32 = 0x3e19_999a;

/// The bit pattern of 1.1.
pub const DEFAULT_ZOOM_AMOUNT: u32 = 0x3f8c_cccd;

/// The bit pattern of 1.2.
pub const DEFAULT_SHOCK_AMOUNT: u32 = 0x3f99_999a;

/// The side from which a clip slides in, or to which it slides out.
#[derive(Clone, Copy, Debug, PartialEq, Eq, Structural)]
pub enum SlideDirection {
    Left,
    Right,
    Up,
    Down,
}

/// One effect on a clip's picture.
#[derive(Clone, Copy, Debug, PartialEq, Eq, Structural)]
pub enum VideoEffect {
    ColorCorrection { brightness: Scalar, contrast: Scalar, saturation: Scalar },
    Transform { scale: Scalar, position_x: Scalar, position_y: Scalar, rotation_deg: Scalar },
    Tint { hue: Scalar, saturation: Scalar, lightness: Scalar, alpha: Scalar },
    Opacity { alpha: Scalar },
    Fade { fade_in: Scalar, fade_out: Scalar },
    Dissolve { dissolve_in: Scalar, dissolve_out: Scalar },
    Slide {
        in_direction: SlideDirection,
        out_direction: SlideDirection,
        slide_in: Scalar,
        slide_out: Scalar,
    },
    Zoom { zoom_in: Scalar, zoom_out: Scalar, zoom_amount: Scalar },
    ShockZoom { shock_in: Scalar, shock_out: Scalar, shock_amount: Scalar },
    GaussianBlur { sigma: Scalar },
    LocalMask {
        enabled: bool,
        center_x: Scalar,
        center_y: Scalar,
        radius: Scalar,
        feather: Scalar,
        strength: Scalar,
    },
    LocalMaskAdjust {
        brightness: Scalar,
        contrast: Scalar,
        saturation: Scalar,
        opacity: Scalar,
        blur_sigma: Scalar,
    },
    Pixelate { block_size: u32 },
}

/// A round, feathered region of the picture with adjustments of its own.
#[derive(Clone, Copy, Debug, PartialEq, Eq, Structural)]
pub struct LocalMaskLayer {
    pub enabled: bool,
    pub center_x: Scalar,
    pub center_y: Scalar,
    pub radius: Scalar,
    pub feather: Scalar,
    pub strength: Scalar,
    pub brightness: Scalar,
    pub contrast: Scalar,
    pub saturation: Scalar,
    pub opacity: Scalar,
    pub blur_sigma: Scalar,
}

impl LocalMaskLayer {
    /// A layer that is off, in the middle of the picture, with neutral adjustments.
    pub open spec fn neutral() -> LocalMaskLayer {
        LocalMaskLayer {
            enabled: false,
            center_x: Scalar { bits: HALF },
            center_y: Scalar { bits: HALF },
            radius: Scalar { bits: QUARTER },
            feather: Scalar { bits: DEFAULT_FEATHER },
            strength: Scalar { bits: ONE },
            brightness: Scalar { bits: ZERO },
            contrast: Scalar { bits: ONE },
            saturation: Scalar { bits: ONE },
            opacity: Scalar { bits: ONE },
            blur_sigma: Scalar { bits: ZERO },
        }
    }
}

impl Default for LocalMaskLayer {
    fn default() -> (layer: Self)
        ensures
            layer == LocalMaskLayer::neutral(),
    {
        LocalMaskLayer {
            enabled: false,
            center_x: Scalar { bits: HALF },
            center_y: Scalar { bits: HALF },
            radius: Scalar { bits: QUARTER },
            feather: Scalar { bits: DEFAULT_FEATHER },
            strength: Scalar { bits: ONE },
            brightness: Scalar { bits: ZERO },
            contrast: Scalar { bits: ONE },
            saturation: Scalar { bits: ONE },
            opacity: Scalar { bits: ONE },
            blur_sigma: Scalar { bits: ZERO },
        }
    }
}

/// The value that a number has at one time of a clip.
#[derive(Clone, Copy, Debug, PartialEq, Eq, Structural)]
pub struct ScalarKeyframe {
    pub time: Duration,
    pub value: Scalar,
}

} // verus!
