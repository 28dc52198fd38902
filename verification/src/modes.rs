//! Switches and choices of the editor.
use vstd::prelude::*;

verus! {

/// The tool that the pointer works as.
#[derive(Clone, Copy, Debug, PartialEq, Eq, Structural)]
pub enum ActiveTool {
    Select,
    Razor,
    TrackSweep,
}

/// The page that is shown.
#[derive(Clone, Copy, Debug, PartialEq, Eq, Structural)]
pub enum AppPage {
    Editor,
    AiSrt,
    AiAgents,
    MotionLoom,
    VectorLab,
}

/// Who wrote a chat message.
#[derive(Clone, Copy, Debug, PartialEq, Eq, Structural)]
pub enum AiChatRole {
    User,
    Assistant,
    System,
}

/// A track of the timeline.
#[derive(Clone, Copy, Debug, PartialEq, Eq, Structural)]
pub enum TrackType {
    /// The main track.
    V1,
    /// The audio track with this index.
    Audio(usize),
    /// The video track above the main one with this index.
    VideoOverlay(usize),
    /// The subtitle track with this index.
    Subtitle(usize),
}

/// How a clip comes in or goes out.
#[derive(Clone, Copy, Debug, PartialEq, Eq, Structural)]
pub enum TransitionType {
    Fade,
    Dissolve,
    Slide,
    Zoom,
    ShockZoom,
}

/// The track of a trim that waits for a decision.
#[derive(Clone, Copy, Debug, PartialEq, Eq, Structural)]
pub enum PendingTrimTrack {
    V1,
}

/// How carefully an export treats color.
#[derive(Clone, Copy, Debug, PartialEq, Eq, Structural)]
pub enum ExportColorMode {
    Fast,
    Hybrid,
    Exact,
}

impl ExportColorMode {
    /// The text shown for it.
    pub open spec fn label_text(self) -> Seq<char> {
        match self {
            ExportColorMode::Fast => "Color: Fast"@,
            ExportColorMode::Hybrid => "Color: Hybrid"@,
            ExportColorMode::Exact => "Color: Exact"@,
        }
    }

    /// The text shown for it.
    pub fn label(self) -> (label: &'static str)
        ensures
            label@ == self.label_text(),
    {
        match self {
            ExportColorMode::Fast => "Color: Fast",
            ExportColorMode::Hybrid => "Color: Hybrid",
            ExportColorMode::Exact => "Color: Exact",
        }
    }

    /// The next mode; the first comes after the last.
    pub open spec fn following(self) -> ExportColorMode {
        match self {
            ExportColorMode::Fast => ExportColorMode::Hybrid,
            ExportColorMode::Hybrid => ExportColorMode::Exact,
            ExportColorMode::Exact => ExportColorMode::Fast,
        }
    }

    /// The next mode; the first comes after the last.
    pub fn next(self) -> (mode: Self)
        ensures
            mode == self.following(),
    {
        match self {
            ExportColorMode::Fast => ExportColorMode::Hybrid,
            ExportColorMode::Hybrid => ExportColorMode::Exact,
            ExportColorMode::Exact => ExportColorMode::Fast,
        }
    }
}

/// The frame rates that the preview offers.
#[derive(Clone, Copy, Debug, PartialEq, Eq, Structural)]
pub enum PreviewFps {
    Fps24,
    Fps25,
    Fps30,
    Fps48,
    Fps50,
    Fps60,
    Fps72,
    Fps90,
    Fps100,
    Fps120,
    Fps144,
}

impl PreviewFps {
    /// The frames per second.
    pub open spec fn rate(self) -> u32 {
        match self {
            PreviewFps::Fps24 => 24,
            PreviewFps::Fps25 => 25,
            PreviewFps::Fps30 => 30,
            PreviewFps::Fps48 => 48,
            PreviewFps::Fps50 => 50,
            PreviewFps::Fps60 => 60,
            PreviewFps::Fps72 => 72,
            PreviewFps::Fps90 => 90,
            PreviewFps::Fps100 => 100,
            PreviewFps::Fps120 => 120,
            PreviewFps::Fps144 => 144,
        }
    }

    /// The choice with the given frames per second, if it is offered.
    pub fn from_value(value: u32) -> (choice: Option<Self>)
        ensures
            choice is Some <==> exists|fps: PreviewFps| fps.rate() == value,
            choice is Some ==> choice->0.rate() == value,
    {
        match value {
            24 => {
                assert(PreviewFps::Fps24.rate() == value);
                Some(PreviewFps::Fps24)
            },
            25 => {
                assert(PreviewFps::Fps25.rate() == value);
                Some(PreviewFps::Fps25)
            },
            30 => {
                assert(PreviewFps::Fps30.rate() == value);
                Some(PreviewFps::Fps30)
            },
            48 => {
                assert(PreviewFps::Fps48.rate() == value);
                Some(PreviewFps::Fps48)
            },
            50 => {
                assert(PreviewFps::Fps50.rate() == value);
                Some(PreviewFps::Fps50)
            },
            60 => {
                assert(PreviewFps::Fps60.rate() == value);
                Some(PreviewFps::Fps60)
            },
            72 => {
                assert(PreviewFps::Fps72.rate() == value);
                Some(PreviewFps::Fps72)
            },
            90 => {
                assert(PreviewFps::Fps90.rate() == value);
                Some(PreviewFps::Fps90)
            },
            100 => {
                assert(PreviewFps::Fps100.rate() == value);
                Some(PreviewFps::Fps100)
            },
            120 => {
                assert(PreviewFps::Fps120.rate() == value);
                Some(PreviewFps::Fps120)
            },
            144 => {
                assert(PreviewFps::Fps144.rate() == value);
                Some(PreviewFps::Fps144)
            },
            _ => None,
        }
    }

    /// The frames per second.
    pub fn value(self) -> (rate: u32)
        ensures
            rate == self.rate(),
    {
        match self {
            PreviewFps::Fps24 => 24,
            PreviewFps::Fps25 => 25,
            PreviewFps::Fps30 => 30,
            PreviewFps::Fps48 => 48,
            PreviewFps::Fps50 => 50,
            PreviewFps::Fps60 => 60,
            PreviewFps::Fps72 => 72,
            PreviewFps::Fps90 => 90,
            PreviewFps::Fps100 => 100,
            PreviewFps::Fps120 => 120,
            PreviewFps::Fps144 => 144,
        }
    }
}

/// How sharp the preview is.
#[derive(Clone, Copy, Debug, PartialEq, Eq, Structural)]
pub enum PreviewQuality {
    Full,
    High,
    Medium,
    Low,
}

/// How a proxy is drawn.
#[derive(Clone, Copy, Debug, PartialEq, Eq, Structural)]
pub enum ProxyRenderMode {
    Nv12Surface,
    BgraImage,
}

impl ProxyRenderMode {
    /// The text shown for it.
    pub open spec fn label_text(self) -> Seq<char> {
        match self {
            ProxyRenderMode::Nv12Surface => "NV12"@,
            ProxyRenderMode::BgraImage => "BGRA"@,
        }
    }

    /// The text shown for it.
    pub fn label(self) -> (label: &'static str)
        ensures
            label@ == self.label_text(),
    {
        match self {
            ProxyRenderMode::Nv12Surface => "NV12",
            ProxyRenderMode::BgraImage => "BGRA",
        }
    }

    /// The other mode.
    pub open spec fn other(self) -> ProxyRenderMode {
        match self {
            ProxyRenderMode::Nv12Surface => ProxyRenderMode::BgraImage,
            ProxyRenderMode::BgraImage => ProxyRenderMode::Nv12Surface,
        }
    }

    /// The other mode.
    pub fn toggled(self) -> (mode: Self)
        ensures
            mode == self.other(),
    {
        match self {
            ProxyRenderMode::Nv12Surface => ProxyRenderMode::BgraImage,
            ProxyRenderMode::BgraImage => ProxyRenderMode::Nv12Surface,
        }
    }

    /// Whether it draws on a surface.
    pub fn prefer_surface(self) -> (yes: bool)
        ensures
            yes == (self == ProxyRenderMode::Nv12Surface),
    {
        matches!(self, ProxyRenderMode::Nv12Surface)
    }
}

/// How the preview is drawn on macOS.
#[derive(Clone, Copy, Debug, PartialEq, Eq, Structural)]
pub enum MacPreviewRenderMode {
    /// Surfaces where that is possible.
    HybridNv12,
    /// Every clip as an image.
    FullBgra,
}

impl MacPreviewRenderMode {
    /// The text shown for it.
    pub open spec fn label_text(self) -> Seq<char> {
        match self {
            MacPreviewRenderMode::HybridNv12 => "Hybrid NV12"@,
            MacPreviewRenderMode::FullBgra => "Full BGRA"@,
        }
    }

    /// The text shown for it.
    pub fn label(self) -> (label: &'static str)
        ensures
            label@ == self.label_text(),
    {
        match self {
            MacPreviewRenderMode::HybridNv12 => "Hybrid NV12",
            MacPreviewRenderMode::FullBgra => "Full BGRA",
        }
    }

    /// The other mode.
    pub open spec fn other(self) -> MacPreviewRenderMode {
        match self {
            MacPreviewRenderMode::HybridNv12 => MacPreviewRenderMode::FullBgra,
            MacPreviewRenderMode::FullBgra => MacPreviewRenderMode::HybridNv12,
        }
    }

    /// The other mode.
    pub fn toggled(self) -> (mode: Self)
        ensures
            mode == self.other(),
    {
        match self {
            MacPreviewRenderMode::HybridNv12 => MacPreviewRenderMode::FullBgra,
            MacPreviewRenderMode::FullBgra => MacPreviewRenderMode::HybridNv12,
        }
    }
}

impl PreviewQuality {
    /// The text shown for it.
    pub open spec fn label_text(self) -> Seq<char> {
        match self {
            PreviewQuality::Full => "Preview Full"@,
            PreviewQuality::High => "Preview Medium"@,
            PreviewQuality::Medium => "Preview Low"@,
            PreviewQuality::Low => "Preview Super Low"@,
        }
    }

    /// The text shown for it.
    pub fn label(self) -> (label: &'static str)
        ensures
            label@ == self.label_text(),
    {
        match self {
            PreviewQuality::Full => "Preview Full",
            PreviewQuality::High => "Preview Medium",
            PreviewQuality::Medium => "Preview Low",
            PreviewQuality::Low => "Preview Super Low",
        }
    }

    /// The longest side of the picture in pixels, where it is limited.
    pub open spec fn longest_side(self) -> Option<u32> {
        match self {
            PreviewQuality::Full => None,
            PreviewQuality::High => Some(480),
            PreviewQuality::Medium => Some(360),
            PreviewQuality::Low => Some(144),
        }
    }

    /// The longest side of the picture in pixels, where it is limited.
    pub fn max_dim(self) -> (side: Option<u32>)
        ensures
            side == self.longest_side(),
    {
        match self {
            PreviewQuality::Full => None,
            PreviewQuality::High => Some(480),
            PreviewQuality::Medium => Some(360),
            PreviewQuality::Low => Some(144),
        }
    }

    /// Whether the picture is shown in large pixels.
    pub fn pixelate(self) -> (yes: bool)
        ensures
            yes == (self == PreviewQuality::Low),
    {
        matches!(self, PreviewQuality::Low)
    }
}

/// What dragging a clip on the main track does.
#[derive(Clone, Copy, Debug, PartialEq, Eq, Structural)]
pub enum V1MoveMode {
    /// The other clips make room and close the gap.
    Magnetic,
    /// The other clips stay.
    Free,
}

impl V1MoveMode {
    /// The text shown for it.
    pub open spec fn label_text(self) -> Seq<char> {
        match self {
            V1MoveMode::Magnetic => "V1: Magnetic"@,
            V1MoveMode::Free => "V1: Free"@,
        }
    }

    /// The text shown for it.
    pub fn label(self) -> (label: &'static str)
        ensures
            label@ == self.label_text(),
    {
        match self {
            V1MoveMode::Magnetic => "V1: Magnetic",
            V1MoveMode::Free => "V1: Free",
        }
    }

    /// The other mode.
    pub open spec fn following(self) -> V1MoveMode {
        match self {
            V1MoveMode::Magnetic => V1MoveMode::Free,
            V1MoveMode::Free => V1MoveMode::Magnetic,
        }
    }

    /// The other mode.
    pub fn next(self) -> (mode: Self)
        ensures
            mode == self.following(),
    {
        match self {
            V1MoveMode::Magnetic => V1MoveMode::Free,
            V1MoveMode::Free => V1MoveMode::Magnetic,
        }
    }
}

/// A change of the media pool that is shown at once.
#[derive(Clone, Copy, Debug, PartialEq, Eq, Structural)]
pub enum MediaPoolUiEvent {
    StateChanged,
    DragCursorChanged,
}

/// A step of playback that is shown at once.
#[derive(Clone, Copy, Debug, PartialEq, Eq, Structural)]
pub enum PlaybackUiEvent {
    Tick,
}

/// What a clip's keyframes change.
#[derive(Clone, Copy, Debug, PartialEq, Eq, Hash, Structural)]
pub enum ClipKeyframeChannel {
    Scale,
    Rotation,
    PosX,
    PosY,
    Brightness,
    Contrast,
    Saturation,
    Opacity,
    Blur,
}

/// A frame rate that is offered gives itself back through its number, and no other
/// does.
pub proof fn preview_rates_are_distinct(a: PreviewFps, b: PreviewFps)
    ensures
        a.rate() == b.rate() <==> a == b,
{
}

/// Three steps through the color modes come back to the first, and two do not.
pub proof fn color_modes_cycle(mode: ExportColorMode)
    ensures
        mode.following().following().following() == mode,
        mode.following() != mode,
        mode.following().following() != mode,
{
}

/// Switching twice changes nothing, and once does.
pub proof fn switching_twice_is_nothing(
    proxy: ProxyRenderMode,
    mac: MacPreviewRenderMode,
    moves: V1MoveMode,
)
    ensures
        proxy.other().other() == proxy,
        proxy.other() != proxy,
        mac.other().other() == mac,
        mac.other() != mac,
        moves.following().following() == moves,
        moves.following() != moves,
{
}

} // verus!
