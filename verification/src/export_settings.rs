//! What an export is written as.
use crate::copying::views;
use crate::text::{decimal, decimal_text, joined, text_is};
use crate::time::{least, monus, Duration};
use vstd::prelude::*;

verus! {

/// How the output is made from the timeline.
#[derive(Debug, Clone, Copy, PartialEq, Eq, Structural)]
pub enum ExportMode {
    SmartUniversal,
    KeepSourceCopy,
    PresetReencode,
}

/// The codecs and the container of the output.
#[derive(Debug, Clone, Copy, PartialEq, Eq, Structural)]
pub enum ExportPreset {
    H264Mp4,
    H264VideotoolboxMp4,
    HevcMp4,
    Vp8Webm,
    Vp9Webm,
    Av1LibaomMkv,
    Av1SvtMkv,
    DnxhrHqMov,
    ProRes422Mov,
    ProRes422HqMov,
    ProRes444Mov,
    ProRes4444Mov,
    AacM4a,
    Mp3,
    Opus,
    Flac,
    WavPcm,
}

impl ExportMode {
    /// The id under which it is kept.
    pub open spec fn id_text(self) -> Seq<char> {
        match self {
            ExportMode::SmartUniversal => "smart_universal"@,
            ExportMode::KeepSourceCopy => "keep_source_copy"@,
            ExportMode::PresetReencode => "preset_reencode"@,
        }
    }

    /// The id under which it is kept.
    pub fn id(self) -> (text: &'static str)
        ensures
            text@ == self.id_text(),
    {
        match self {
            ExportMode::SmartUniversal => "smart_universal",
            ExportMode::KeepSourceCopy => "keep_source_copy",
            ExportMode::PresetReencode => "preset_reencode",
        }
    }

    /// The one with the given id.
    pub fn from_id(id: &str) -> (found: Option<ExportMode>)
        ensures
            match found {
                Some(p) => id@ == p.id_text(),
                None => forall|p: ExportMode| #[trigger] p.id_text() != id@,
            },
    {
        if text_is(id, ExportMode::SmartUniversal.id()) {
            return Some(ExportMode::SmartUniversal);
        }
        if text_is(id, ExportMode::KeepSourceCopy.id()) {
            return Some(ExportMode::KeepSourceCopy);
        }
        if text_is(id, ExportMode::PresetReencode.id()) {
            return Some(ExportMode::PresetReencode);
        }
        assert forall|p: ExportMode| #[trigger] p.id_text() != id@ by {
            match p {
                ExportMode::SmartUniversal => assert(ExportMode::SmartUniversal.id_text() != id@),
                ExportMode::KeepSourceCopy => assert(ExportMode::KeepSourceCopy.id_text() != id@),
                ExportMode::PresetReencode => assert(ExportMode::PresetReencode.id_text() != id@),
            }
        }
        None
    }

    /// All, in the order in which they are offered.
    pub fn all_for_ui() -> (all: &'static [ExportMode])
        ensures
            all@ == seq![ExportMode::SmartUniversal, ExportMode::KeepSourceCopy, ExportMode::PresetReencode],
    {
        let all: &'static [ExportMode] = &[ExportMode::SmartUniversal, ExportMode::KeepSourceCopy, ExportMode::PresetReencode];
        assert(all@ =~= seq![ExportMode::SmartUniversal, ExportMode::KeepSourceCopy, ExportMode::PresetReencode]);
        all
    }

    /// Its name.
    pub open spec fn label_text(self) -> Seq<char> {
        match self {
            ExportMode::SmartUniversal => "Smart Universal (Recommended)"@,
            ExportMode::KeepSourceCopy => "Keep Source (Copy)"@,
            ExportMode::PresetReencode => "Preset Re-encode"@,
        }
    }

    /// Its name.
    pub fn label(self) -> (text: &'static str)
        ensures
            text@ == self.label_text(),
    {
        match self {
            ExportMode::SmartUniversal => "Smart Universal (Recommended)",
            ExportMode::KeepSourceCopy => "Keep Source (Copy)",
            ExportMode::PresetReencode => "Preset Re-encode",
        }
    }

    /// What it does, in words.
    pub open spec fn description_text(self) -> Seq<char> {
        match self {
            ExportMode::SmartUniversal => "Try stream copy first; fallback to preset re-encode when timeline/output needs render."@,
            ExportMode::KeepSourceCopy => "Trim with stream copy only. Fails if timeline contains effects/overlays/mix."@,
            ExportMode::PresetReencode => "Always render with selected preset and settings (same behavior as current exporter)."@,
        }
    }

    /// What it does, in words.
    pub fn description(self) -> (text: &'static str)
        ensures
            text@ == self.description_text(),
    {
        match self {
            ExportMode::SmartUniversal => "Try stream copy first; fallback to preset re-encode when timeline/output needs render.",
            ExportMode::KeepSourceCopy => "Trim with stream copy only. Fails if timeline contains effects/overlays/mix.",
            ExportMode::PresetReencode => "Always render with selected preset and settings (same behavior as current exporter).",
        }
    }
}

impl ExportPreset {
    /// The id under which it is kept.
    pub open spec fn id_text(self) -> Seq<char> {
        match self {
            ExportPreset::H264Mp4 => "h264_mp4"@,
            ExportPreset::H264VideotoolboxMp4 => "h264_videotoolbox_mp4"@,
            ExportPreset::HevcMp4 => "hevc_mp4"@,
            ExportPreset::Vp8Webm => "vp8_webm"@,
            ExportPreset::Vp9Webm => "vp9_webm"@,
            ExportPreset::Av1LibaomMkv => "av1_libaom_mkv"@,
            ExportPreset::Av1SvtMkv => "av1_svt_mkv"@,
            ExportPreset::DnxhrHqMov => "dnxhr_hq_mov"@,
            ExportPreset::ProRes422Mov => "prores_422_mov"@,
            ExportPreset::ProRes422HqMov => "prores_422_hq_mov"@,
            ExportPreset::ProRes444Mov => "prores_444_mov"@,
            ExportPreset::ProRes4444Mov => "prores_4444_mov"@,
            ExportPreset::AacM4a => "aac_m4a"@,
            ExportPreset::Mp3 => "mp3"@,
            ExportPreset::Opus => "opus"@,
            ExportPreset::Flac => "flac"@,
            ExportPreset::WavPcm => "wav_pcm"@,
        }
    }

    /// The id under which it is kept.
    pub fn id(self) -> (text: &'static str)
        ensures
            text@ == self.id_text(),
    {
        match self {
            ExportPreset::H264Mp4 => "h264_mp4",
            ExportPreset::H264VideotoolboxMp4 => "h264_videotoolbox_mp4",
            ExportPreset::HevcMp4 => "hevc_mp4",
            ExportPreset::Vp8Webm => "vp8_webm",
            ExportPreset::Vp9Webm => "vp9_webm",
            ExportPreset::Av1LibaomMkv => "av1_libaom_mkv",
            ExportPreset::Av1SvtMkv => "av1_svt_mkv",
            ExportPreset::DnxhrHqMov => "dnxhr_hq_mov",
            ExportPreset::ProRes422Mov => "prores_422_mov",
            ExportPreset::ProRes422HqMov => "prores_422_hq_mov",
            ExportPreset::ProRes444Mov => "prores_444_mov",
            ExportPreset::ProRes4444Mov => "prores_4444_mov",
            ExportPreset::AacM4a => "aac_m4a",
            ExportPreset::Mp3 => "mp3",
            ExportPreset::Opus => "opus",
            ExportPreset::Flac => "flac",
            ExportPreset::WavPcm => "wav_pcm",
        }
    }

    /// The one with the given id.
    pub fn from_id(id: &str) -> (found: Option<ExportPreset>)
        ensures
            match found {
                Some(p) => id@ == p.id_text(),
                None => forall|p: ExportPreset| #[trigger] p.id_text() != id@,
            },
    {
        if text_is(id, ExportPreset::H264Mp4.id()) {
            return Some(ExportPreset::H264Mp4);
        }
        if text_is(id, ExportPreset::H264VideotoolboxMp4.id()) {
            return Some(ExportPreset::H264VideotoolboxMp4);
        }
        if text_is(id, ExportPreset::HevcMp4.id()) {
            return Some(ExportPreset::HevcMp4);
        }
        if text_is(id, ExportPreset::Vp8Webm.id()) {
            return Some(ExportPreset::Vp8Webm);
        }
        if text_is(id, ExportPreset::Vp9Webm.id()) {
            return Some(ExportPreset::Vp9Webm);
        }
        if text_is(id, ExportPreset::Av1LibaomMkv.id()) {
            return Some(ExportPreset::Av1LibaomMkv);
        }
        if text_is(id, ExportPreset::Av1SvtMkv.id()) {
            return Some(ExportPreset::Av1SvtMkv);
        }
        if text_is(id, ExportPreset::DnxhrHqMov.id()) {
            return Some(ExportPreset::DnxhrHqMov);
        }
        if text_is(id, ExportPreset::ProRes422Mov.id()) {
            return Some(ExportPreset::ProRes422Mov);
        }
        if text_is(id, ExportPreset::ProRes422HqMov.id()) {
            return Some(ExportPreset::ProRes422HqMov);
        }
        if text_is(id, ExportPreset::ProRes444Mov.id()) {
            return Some(ExportPreset::ProRes444Mov);
        }
        if text_is(id, ExportPreset::ProRes4444Mov.id()) {
            return Some(ExportPreset::ProRes4444Mov);
        }
        if text_is(id, ExportPreset::AacM4a.id()) {
            return Some(ExportPreset::AacM4a);
        }
        if text_is(id, ExportPreset::Mp3.id()) {
            return Some(ExportPreset::Mp3);
        }
        if text_is(id, ExportPreset::Opus.id()) {
            return Some(ExportPreset::Opus);
        }
        if text_is(id, ExportPreset::Flac.id()) {
            return Some(ExportPreset::Flac);
        }
        if text_is(id, ExportPreset::WavPcm.id()) {
            return Some(ExportPreset::WavPcm);
        }
        assert forall|p: ExportPreset| #[trigger] p.id_text() != id@ by {
            match p {
                ExportPreset::H264Mp4 => assert(ExportPreset::H264Mp4.id_text() != id@),
                ExportPreset::H264VideotoolboxMp4 => assert(ExportPreset::H264VideotoolboxMp4.id_text() != id@),
                ExportPreset::HevcMp4 => assert(ExportPreset::HevcMp4.id_text() != id@),
                ExportPreset::Vp8Webm => assert(ExportPreset::Vp8Webm.id_text() != id@),
                ExportPreset::Vp9Webm => assert(ExportPreset::Vp9Webm.id_text() != id@),
                ExportPreset::Av1LibaomMkv => assert(ExportPreset::Av1LibaomMkv.id_text() != id@),
                ExportPreset::Av1SvtMkv => assert(ExportPreset::Av1SvtMkv.id_text() != id@),
                ExportPreset::DnxhrHqMov => assert(ExportPreset::DnxhrHqMov.id_text() != id@),
                ExportPreset::ProRes422Mov => assert(ExportPreset::ProRes422Mov.id_text() != id@),
                ExportPreset::ProRes422HqMov => assert(ExportPreset::ProRes422HqMov.id_text() != id@),
                ExportPreset::ProRes444Mov => assert(ExportPreset::ProRes444Mov.id_text() != id@),
                ExportPreset::ProRes4444Mov => assert(ExportPreset::ProRes4444Mov.id_text() != id@),
                ExportPreset::AacM4a => assert(ExportPreset::AacM4a.id_text() != id@),
                ExportPreset::Mp3 => assert(ExportPreset::Mp3.id_text() != id@),
                ExportPreset::Opus => assert(ExportPreset::Opus.id_text() != id@),
                ExportPreset::Flac => assert(ExportPreset::Flac.id_text() != id@),
                ExportPreset::WavPcm => assert(ExportPreset::WavPcm.id_text() != id@),
            }
        }
        None
    }

    /// All, in the order in which they are offered.
    pub fn all_for_ui() -> (all: &'static [ExportPreset])
        ensures
            all@ == seq![ExportPreset::H264Mp4, ExportPreset::H264VideotoolboxMp4, ExportPreset::HevcMp4, ExportPreset::Vp9Webm, ExportPreset::Vp8Webm, ExportPreset::Av1LibaomMkv, ExportPreset::Av1SvtMkv, ExportPreset::DnxhrHqMov, ExportPreset::ProRes422Mov, ExportPreset::ProRes422HqMov, ExportPreset::ProRes444Mov, ExportPreset::ProRes4444Mov, ExportPreset::AacM4a, ExportPreset::Mp3, ExportPreset::Opus, ExportPreset::Flac, ExportPreset::WavPcm],
    {
        let all: &'static [ExportPreset] = &[ExportPreset::H264Mp4, ExportPreset::H264VideotoolboxMp4, ExportPreset::HevcMp4, ExportPreset::Vp9Webm, ExportPreset::Vp8Webm, ExportPreset::Av1LibaomMkv, ExportPreset::Av1SvtMkv, ExportPreset::DnxhrHqMov, ExportPreset::ProRes422Mov, ExportPreset::ProRes422HqMov, ExportPreset::ProRes444Mov, ExportPreset::ProRes4444Mov, ExportPreset::AacM4a, ExportPreset::Mp3, ExportPreset::Opus, ExportPreset::Flac, ExportPreset::WavPcm];
        assert(all@ =~= seq![ExportPreset::H264Mp4, ExportPreset::H264VideotoolboxMp4, ExportPreset::HevcMp4, ExportPreset::Vp9Webm, ExportPreset::Vp8Webm, ExportPreset::Av1LibaomMkv, ExportPreset::Av1SvtMkv, ExportPreset::DnxhrHqMov, ExportPreset::ProRes422Mov, ExportPreset::ProRes422HqMov, ExportPreset::ProRes444Mov, ExportPreset::ProRes4444Mov, ExportPreset::AacM4a, ExportPreset::Mp3, ExportPreset::Opus, ExportPreset::Flac, ExportPreset::WavPcm]);
        all
    }

    /// Its name.
    pub open spec fn label_text(self) -> Seq<char> {
        match self {
            ExportPreset::H264Mp4 => "H.264 MP4"@,
            ExportPreset::H264VideotoolboxMp4 => "H.264 MP4 (VideoToolbox, macOS)"@,
            ExportPreset::HevcMp4 => "HEVC MP4"@,
            ExportPreset::Vp8Webm => "VP8 WEBM"@,
            ExportPreset::Vp9Webm => "VP9 WEBM"@,
            ExportPreset::Av1LibaomMkv => "AV1 (libaom+opus) MKV"@,
            ExportPreset::Av1SvtMkv => "SVT-AV1 (libsvtav1+opus) MKV"@,
            ExportPreset::DnxhrHqMov => "DNxHR-HQ MOV"@,
            ExportPreset::ProRes422Mov => "ProRes 422 MOV"@,
            ExportPreset::ProRes422HqMov => "ProRes 422 HQ MOV"@,
            ExportPreset::ProRes444Mov => "ProRes 444 MOV"@,
            ExportPreset::ProRes4444Mov => "ProRes 4444 MOV"@,
            ExportPreset::AacM4a => "Audio AAC M4A"@,
            ExportPreset::Mp3 => "Audio MP3"@,
            ExportPreset::Opus => "Audio OPUS"@,
            ExportPreset::Flac => "Audio FLAC"@,
            ExportPreset::WavPcm => "Audio WAV PCM"@,
        }
    }

    /// Its name.
    pub fn label(self) -> (text: &'static str)
        ensures
            text@ == self.label_text(),
    {
        match self {
            ExportPreset::H264Mp4 => "H.264 MP4",
            ExportPreset::H264VideotoolboxMp4 => "H.264 MP4 (VideoToolbox, macOS)",
            ExportPreset::HevcMp4 => "HEVC MP4",
            ExportPreset::Vp8Webm => "VP8 WEBM",
            ExportPreset::Vp9Webm => "VP9 WEBM",
            ExportPreset::Av1LibaomMkv => "AV1 (libaom+opus) MKV",
            ExportPreset::Av1SvtMkv => "SVT-AV1 (libsvtav1+opus) MKV",
            ExportPreset::DnxhrHqMov => "DNxHR-HQ MOV",
            ExportPreset::ProRes422Mov => "ProRes 422 MOV",
            ExportPreset::ProRes422HqMov => "ProRes 422 HQ MOV",
            ExportPreset::ProRes444Mov => "ProRes 444 MOV",
            ExportPreset::ProRes4444Mov => "ProRes 4444 MOV",
            ExportPreset::AacM4a => "Audio AAC M4A",
            ExportPreset::Mp3 => "Audio MP3",
            ExportPreset::Opus => "Audio OPUS",
            ExportPreset::Flac => "Audio FLAC",
            ExportPreset::WavPcm => "Audio WAV PCM",
        }
    }

    /// What it gives, in words.
    pub open spec fn description_text(self) -> Seq<char> {
        match self {
            ExportPreset::H264Mp4 => "Best compatibility. Uses non-x264 H.264 encoders (VideoToolbox/OpenH264 path)."@,
            ExportPreset::H264VideotoolboxMp4 => "macOS hardware H.264 encoder (VideoToolbox). Faster encode with bitrate control."@,
            ExportPreset::HevcMp4 => "HEVC via VideoToolbox on macOS. On other platforms falls back to H.264 compatibility export."@,
            ExportPreset::Vp8Webm => "VP8 video + Opus audio in WebM."@,
            ExportPreset::Vp9Webm => "VP9 video + Opus audio in WebM."@,
            ExportPreset::Av1LibaomMkv => "AV1 via libaom with Opus audio."@,
            ExportPreset::Av1SvtMkv => "AV1 via SVT-AV1 with Opus audio."@,
            ExportPreset::DnxhrHqMov => "DNxHR HQ mezzanine format (10-bit 4:2:2)."@,
            ExportPreset::ProRes422Mov => "ProRes 422 profile for editing workflow."@,
            ExportPreset::ProRes422HqMov => "Editing/master format with high quality and large files."@,
            ExportPreset::ProRes444Mov => "ProRes 444 profile (no alpha channel)."@,
            ExportPreset::ProRes4444Mov => "High-end master format with alpha support and very large files."@,
            ExportPreset::AacM4a => "Audio-only AAC in M4A container."@,
            ExportPreset::Mp3 => "Audio-only MP3."@,
            ExportPreset::Opus => "Audio-only Opus."@,
            ExportPreset::Flac => "Audio-only lossless FLAC."@,
            ExportPreset::WavPcm => "Audio-only uncompressed PCM WAV."@,
        }
    }

    /// What it gives, in words.
    pub fn description(self) -> (text: &'static str)
        ensures
            text@ == self.description_text(),
    {
        match self {
            ExportPreset::H264Mp4 => "Best compatibility. Uses non-x264 H.264 encoders (VideoToolbox/OpenH264 path).",
            ExportPreset::H264VideotoolboxMp4 => "macOS hardware H.264 encoder (VideoToolbox). Faster encode with bitrate control.",
            ExportPreset::HevcMp4 => "HEVC via VideoToolbox on macOS. On other platforms falls back to H.264 compatibility export.",
            ExportPreset::Vp8Webm => "VP8 video + Opus audio in WebM.",
            ExportPreset::Vp9Webm => "VP9 video + Opus audio in WebM.",
            ExportPreset::Av1LibaomMkv => "AV1 via libaom with Opus audio.",
            ExportPreset::Av1SvtMkv => "AV1 via SVT-AV1 with Opus audio.",
            ExportPreset::DnxhrHqMov => "DNxHR HQ mezzanine format (10-bit 4:2:2).",
            ExportPreset::ProRes422Mov => "ProRes 422 profile for editing workflow.",
            ExportPreset::ProRes422HqMov => "Editing/master format with high quality and large files.",
            ExportPreset::ProRes444Mov => "ProRes 444 profile (no alpha channel).",
            ExportPreset::ProRes4444Mov => "High-end master format with alpha support and very large files.",
            ExportPreset::AacM4a => "Audio-only AAC in M4A container.",
            ExportPreset::Mp3 => "Audio-only MP3.",
            ExportPreset::Opus => "Audio-only Opus.",
            ExportPreset::Flac => "Audio-only lossless FLAC.",
            ExportPreset::WavPcm => "Audio-only uncompressed PCM WAV.",
        }
    }

    /// The extension of its files.
    pub open spec fn extension_text(self) -> Seq<char> {
        match self {
            ExportPreset::H264Mp4 => "mp4"@,
            ExportPreset::H264VideotoolboxMp4 => "mp4"@,
            ExportPreset::HevcMp4 => "mp4"@,
            ExportPreset::Vp8Webm => "webm"@,
            ExportPreset::Vp9Webm => "webm"@,
            ExportPreset::Av1LibaomMkv => "mkv"@,
            ExportPreset::Av1SvtMkv => "mkv"@,
            ExportPreset::DnxhrHqMov => "mov"@,
            ExportPreset::ProRes422Mov => "mov"@,
            ExportPreset::ProRes422HqMov => "mov"@,
            ExportPreset::ProRes444Mov => "mov"@,
            ExportPreset::ProRes4444Mov => "mov"@,
            ExportPreset::AacM4a => "m4a"@,
            ExportPreset::Mp3 => "mp3"@,
            ExportPreset::Opus => "opus"@,
            ExportPreset::Flac => "flac"@,
            ExportPreset::WavPcm => "wav"@,
        }
    }

    /// The extension of its files.
    pub fn file_extension(self) -> (text: &'static str)
        ensures
            text@ == self.extension_text(),
    {
        match self {
            ExportPreset::H264Mp4 => "mp4",
            ExportPreset::H264VideotoolboxMp4 => "mp4",
            ExportPreset::HevcMp4 => "mp4",
            ExportPreset::Vp8Webm => "webm",
            ExportPreset::Vp9Webm => "webm",
            ExportPreset::Av1LibaomMkv => "mkv",
            ExportPreset::Av1SvtMkv => "mkv",
            ExportPreset::DnxhrHqMov => "mov",
            ExportPreset::ProRes422Mov => "mov",
            ExportPreset::ProRes422HqMov => "mov",
            ExportPreset::ProRes444Mov => "mov",
            ExportPreset::ProRes4444Mov => "mov",
            ExportPreset::AacM4a => "m4a",
            ExportPreset::Mp3 => "mp3",
            ExportPreset::Opus => "opus",
            ExportPreset::Flac => "flac",
            ExportPreset::WavPcm => "wav",
        }
    }

    /// Whether the quality is given as a constant rate factor.
    pub open spec fn takes_crf(self) -> bool {
        self is Vp8Webm || self is Vp9Webm || self is Av1LibaomMkv || self is Av1SvtMkv
    }

    /// Whether the quality is given as a constant rate factor.
    pub fn supports_crf(self) -> (yes: bool)
        ensures
            yes == self.takes_crf(),
    {
        match self {
            ExportPreset::Vp8Webm
            | ExportPreset::Vp9Webm
            | ExportPreset::Av1LibaomMkv
            | ExportPreset::Av1SvtMkv
            => true,
            _ => false,
        }
    }

    /// Whether the output has sound only.
    pub open spec fn audio_only(self) -> bool {
        self is AacM4a || self is Mp3 || self is Opus || self is Flac || self is WavPcm
    }

    /// Whether the output has sound only.
    pub fn is_audio_only(self) -> (yes: bool)
        ensures
            yes == self.audio_only(),
    {
        match self {
            ExportPreset::AacM4a
            | ExportPreset::Mp3
            | ExportPreset::Opus
            | ExportPreset::Flac
            | ExportPreset::WavPcm
            => true,
            _ => false,
        }
    }

    /// Whether the picture has eight bits and halved colour.
    pub open spec fn eight_bit(self) -> bool {
        self is H264Mp4 || self is H264VideotoolboxMp4 || self is Vp8Webm || self is Vp9Webm
    }

    /// Whether the picture has eight bits and halved colour.
    pub fn is_yuv420p_8bit(self) -> (yes: bool)
        ensures
            yes == self.eight_bit(),
    {
        match self {
            ExportPreset::H264Mp4
            | ExportPreset::H264VideotoolboxMp4
            | ExportPreset::Vp8Webm
            | ExportPreset::Vp9Webm
            => true,
            _ => false,
        }
    }

    /// The options for H.264 without the x264 encoder.
    pub open spec fn h264_args(s: ExportSettingsView, macos: bool) -> Seq<Seq<char>> {
        if macos {
            seq![
                "-c:v"@,
                "h264_videotoolbox"@,
                "-allow_sw"@,
                "1"@,
                "-pix_fmt"@,
                "yuv420p"@,
                "-b:v"@,
                "12M"@,
                "-maxrate"@,
                "16M"@,
                "-bufsize"@,
                "24M"@,
                "-c:a"@,
                "aac"@,
                "-b:a"@,
                s.audio_rate(),
            ]
        } else {
            seq![
                "-c:v"@,
                "libopenh264"@,
                "-pix_fmt"@,
                "yuv420p"@,
                "-b:v"@,
                "8M"@,
                "-maxrate"@,
                "12M"@,
                "-bufsize"@,
                "16M"@,
                "-c:a"@,
                "aac"@,
                "-b:a"@,
                s.audio_rate(),
            ]
        }
    }

    /// The options for HEVC, or for H.264 where there is no encoder for it.
    pub open spec fn hevc_args(s: ExportSettingsView, macos: bool) -> Seq<Seq<char>> {
        if macos {
            seq![
                "-c:v"@,
                "hevc_videotoolbox"@,
                "-allow_sw"@,
                "1"@,
                "-pix_fmt"@,
                "yuv420p"@,
                "-b:v"@,
                "12M"@,
                "-maxrate"@,
                "16M"@,
                "-bufsize"@,
                "24M"@,
                "-tag:v"@,
                "hvc1"@,
                "-c:a"@,
                "aac"@,
                "-b:a"@,
                s.audio_rate(),
            ]
        } else {
            ExportPreset::h264_args(s, macos)
        }
    }

    /// The options for the output.
    pub open spec fn output_args(self, s: ExportSettingsView, macos: bool) -> Seq<Seq<char>> {
        match self {
            ExportPreset::H264Mp4 => ExportPreset::h264_args(s, macos),
            ExportPreset::HevcMp4 => ExportPreset::hevc_args(s, macos),
            ExportPreset::H264VideotoolboxMp4 => seq![
                "-c:v"@,
                "h264_videotoolbox"@,
                "-allow_sw"@,
                "0"@,
                "-pix_fmt"@,
                "yuv420p"@,
                "-b:v"@,
                "12M"@,
                "-maxrate"@,
                "16M"@,
                "-bufsize"@,
                "24M"@,
                "-c:a"@,
                "aac"@,
                "-b:a"@,
                s.audio_rate(),
            ],
            ExportPreset::Vp8Webm => seq![
                "-c:v"@,
                "libvpx"@,
                "-pix_fmt"@,
                "yuv420p"@,
                "-crf"@,
                s.crf_text(),
                "-b:v"@,
                "0"@,
                "-deadline"@,
                "good"@,
                "-cpu-used"@,
                "4"@,
                "-c:a"@,
                "libopus"@,
                "-b:a"@,
                s.audio_rate(),
            ],
            ExportPreset::Vp9Webm => seq![
                "-c:v"@,
                "libvpx-vp9"@,
                "-pix_fmt"@,
                "yuv420p"@,
                "-crf"@,
                s.crf_text(),
                "-b:v"@,
                "0"@,
                "-deadline"@,
                "good"@,
                "-row-mt"@,
                "1"@,
                "-tile-columns"@,
                "2"@,
                "-frame-parallel"@,
                "1"@,
                "-cpu-used"@,
                "2"@,
                "-c:a"@,
                "libopus"@,
                "-b:a"@,
                s.audio_rate(),
            ],
            ExportPreset::Av1LibaomMkv => seq![
                "-c:v"@,
                "libaom-av1"@,
                "-pix_fmt"@,
                "yuv420p10le"@,
                "-crf"@,
                s.crf_text(),
                "-b:v"@,
                "0"@,
                "-cpu-used"@,
                "6"@,
                "-row-mt"@,
                "1"@,
                "-tiles"@,
                "2x2"@,
                "-c:a"@,
                "libopus"@,
                "-b:a"@,
                s.audio_rate(),
            ],
            ExportPreset::Av1SvtMkv => seq![
                "-c:v"@,
                "libsvtav1"@,
                "-pix_fmt"@,
                "yuv420p10le"@,
                "-crf"@,
                s.crf_text(),
                "-preset"@,
                "8"@,
                "-c:a"@,
                "libopus"@,
                "-b:a"@,
                s.audio_rate(),
            ],
            ExportPreset::DnxhrHqMov => seq![
                "-c:v"@,
                "dnxhd"@,
                "-profile:v"@,
                "dnxhr_hq"@,
                "-pix_fmt"@,
                "yuv422p10le"@,
                "-c:a"@,
                "pcm_s24le"@,
            ],
            ExportPreset::ProRes422Mov => seq![
                "-c:v"@,
                "prores_ks"@,
                "-profile:v"@,
                "2"@,
                "-pix_fmt"@,
                "yuv422p10le"@,
                "-c:a"@,
                "pcm_s16le"@,
            ],
            ExportPreset::ProRes422HqMov => seq![
                "-c:v"@,
                "prores_ks"@,
                "-profile:v"@,
                "3"@,
                "-pix_fmt"@,
                "yuv422p10le"@,
                "-c:a"@,
                "pcm_s16le"@,
            ],
            ExportPreset::ProRes444Mov => seq![
                "-c:v"@,
                "prores_ks"@,
                "-profile:v"@,
                "4"@,
                "-pix_fmt"@,
                "yuv444p10le"@,
                "-c:a"@,
                "pcm_s16le"@,
            ],
            ExportPreset::ProRes4444Mov => seq![
                "-c:v"@,
                "prores_ks"@,
                "-profile:v"@,
                "4"@,
                "-pix_fmt"@,
                "yuva444p10le"@,
                "-c:a"@,
                "pcm_s16le"@,
            ],
            ExportPreset::AacM4a => seq![
                "-vn"@,
                "-c:a"@,
                "aac"@,
                "-b:a"@,
                s.audio_rate(),
            ],
            ExportPreset::Mp3 => seq![
                "-vn"@,
                "-c:a"@,
                "libmp3lame"@,
                "-b:a"@,
                s.audio_rate(),
            ],
            ExportPreset::Opus => seq![
                "-vn"@,
                "-c:a"@,
                "libopus"@,
                "-b:a"@,
                s.audio_rate(),
            ],
            ExportPreset::Flac => seq![
                "-vn"@,
                "-c:a"@,
                "flac"@,
            ],
            ExportPreset::WavPcm => seq![
                "-vn"@,
                "-c:a"@,
                "pcm_s16le"@,
            ],
        }
    }

    fn push_non_x264_h264_args(args: &mut Vec<String>, settings: &ExportSettings, macos: bool)
        ensures
            views(final(args)@) == views(old(args)@) + ExportPreset::h264_args(settings@, macos),
    {
        reveal(views);
        let rate = settings.audio_rate_text();
        if macos {
            let list = [
                "-c:v",
                "h264_videotoolbox",
                "-allow_sw",
                "1",
                "-pix_fmt",
                "yuv420p",
                "-b:v",
                "12M",
                "-maxrate",
                "16M",
                "-bufsize",
                "24M",
                "-c:a",
                "aac",
                "-b:a",
                rate.as_str(),
            ];
            push_all(args, &list);
            assert(views(list@) =~= seq![
                "-c:v"@,
                "h264_videotoolbox"@,
                "-allow_sw"@,
                "1"@,
                "-pix_fmt"@,
                "yuv420p"@,
                "-b:v"@,
                "12M"@,
                "-maxrate"@,
                "16M"@,
                "-bufsize"@,
                "24M"@,
                "-c:a"@,
                "aac"@,
                "-b:a"@,
                settings@.audio_rate(),
            ]);
        } else {
            let list = [
                "-c:v",
                "libopenh264",
                "-pix_fmt",
                "yuv420p",
                "-b:v",
                "8M",
                "-maxrate",
                "12M",
                "-bufsize",
                "16M",
                "-c:a",
                "aac",
                "-b:a",
                rate.as_str(),
            ];
            push_all(args, &list);
            assert(views(list@) =~= seq![
                "-c:v"@,
                "libopenh264"@,
                "-pix_fmt"@,
                "yuv420p"@,
                "-b:v"@,
                "8M"@,
                "-maxrate"@,
                "12M"@,
                "-bufsize"@,
                "16M"@,
                "-c:a"@,
                "aac"@,
                "-b:a"@,
                settings@.audio_rate(),
            ]);
        }
    }

    fn push_non_gpl_hevc_args(args: &mut Vec<String>, settings: &ExportSettings, macos: bool)
        ensures
            views(final(args)@) == views(old(args)@) + ExportPreset::hevc_args(settings@, macos),
    {
        reveal(views);
        if macos {
            let rate = settings.audio_rate_text();
            let list = [
                "-c:v",
                "hevc_videotoolbox",
                "-allow_sw",
                "1",
                "-pix_fmt",
                "yuv420p",
                "-b:v",
                "12M",
                "-maxrate",
                "16M",
                "-bufsize",
                "24M",
                "-tag:v",
                "hvc1",
                "-c:a",
                "aac",
                "-b:a",
                rate.as_str(),
            ];
            push_all(args, &list);
            assert(views(list@) =~= seq![
                "-c:v"@,
                "hevc_videotoolbox"@,
                "-allow_sw"@,
                "1"@,
                "-pix_fmt"@,
                "yuv420p"@,
                "-b:v"@,
                "12M"@,
                "-maxrate"@,
                "16M"@,
                "-bufsize"@,
                "24M"@,
                "-tag:v"@,
                "hvc1"@,
                "-c:a"@,
                "aac"@,
                "-b:a"@,
                settings@.audio_rate(),
            ]);
        } else {
            ExportPreset::push_non_x264_h264_args(args, settings, macos);
        }
    }

    /// Adds the options for the output.
    pub fn push_output_args(self, args: &mut Vec<String>, settings: &ExportSettings, macos: bool)
        ensures
            views(final(args)@) == views(old(args)@) + self.output_args(settings@, macos),
    {
        reveal(views);
        match self {
            ExportPreset::H264Mp4 => ExportPreset::push_non_x264_h264_args(args, settings, macos),
            ExportPreset::HevcMp4 => ExportPreset::push_non_gpl_hevc_args(args, settings, macos),
            ExportPreset::H264VideotoolboxMp4 => {
                let rate = settings.audio_rate_text();
                let list = [
                    "-c:v",
                    "h264_videotoolbox",
                    "-allow_sw",
                    "0",
                    "-pix_fmt",
                    "yuv420p",
                    "-b:v",
                    "12M",
                    "-maxrate",
                    "16M",
                    "-bufsize",
                    "24M",
                    "-c:a",
                    "aac",
                    "-b:a",
                    rate.as_str(),
                ];
                push_all(args, &list);
                assert(views(list@) =~= seq![
                    "-c:v"@,
                    "h264_videotoolbox"@,
                    "-allow_sw"@,
                    "0"@,
                    "-pix_fmt"@,
                    "yuv420p"@,
                    "-b:v"@,
                    "12M"@,
                    "-maxrate"@,
                    "16M"@,
                    "-bufsize"@,
                    "24M"@,
                    "-c:a"@,
                    "aac"@,
                    "-b:a"@,
                    settings@.audio_rate(),
                ]);
            },
            ExportPreset::Vp8Webm => {
                let rate = settings.audio_rate_text();
                let crf = settings.crf_words();
                let list = [
                    "-c:v",
                    "libvpx",
                    "-pix_fmt",
                    "yuv420p",
                    "-crf",
                    crf.as_str(),
                    "-b:v",
                    "0",
                    "-deadline",
                    "good",
                    "-cpu-used",
                    "4",
                    "-c:a",
                    "libopus",
                    "-b:a",
                    rate.as_str(),
                ];
                push_all(args, &list);
                assert(views(list@) =~= seq![
                    "-c:v"@,
                    "libvpx"@,
                    "-pix_fmt"@,
                    "yuv420p"@,
                    "-crf"@,
                    settings@.crf_text(),
                    "-b:v"@,
                    "0"@,
                    "-deadline"@,
                    "good"@,
                    "-cpu-used"@,
                    "4"@,
                    "-c:a"@,
                    "libopus"@,
                    "-b:a"@,
                    settings@.audio_rate(),
                ]);
            },
            ExportPreset::Vp9Webm => {
                let rate = settings.audio_rate_text();
                let crf = settings.crf_words();
                let list = [
                    "-c:v",
                    "libvpx-vp9",
                    "-pix_fmt",
                    "yuv420p",
                    "-crf",
                    crf.as_str(),
                    "-b:v",
                    "0",
                    "-deadline",
                    "good",
                    "-row-mt",
                    "1",
                    "-tile-columns",
                    "2",
                    "-frame-parallel",
                    "1",
                    "-cpu-used",
                    "2",
                    "-c:a",
                    "libopus",
                    "-b:a",
                    rate.as_str(),
                ];
                push_all(args, &list);
                assert(views(list@) =~= seq![
                    "-c:v"@,
                    "libvpx-vp9"@,
                    "-pix_fmt"@,
                    "yuv420p"@,
                    "-crf"@,
                    settings@.crf_text(),
                    "-b:v"@,
                    "0"@,
                    "-deadline"@,
                    "good"@,
                    "-row-mt"@,
                    "1"@,
                    "-tile-columns"@,
                    "2"@,
                    "-frame-parallel"@,
                    "1"@,
                    "-cpu-used"@,
                    "2"@,
                    "-c:a"@,
                    "libopus"@,
                    "-b:a"@,
                    settings@.audio_rate(),
                ]);
            },
            ExportPreset::Av1LibaomMkv => {
                let rate = settings.audio_rate_text();
                let crf = settings.crf_words();
                let list = [
                    "-c:v",
                    "libaom-av1",
                    "-pix_fmt",
                    "yuv420p10le",
                    "-crf",
                    crf.as_str(),
                    "-b:v",
                    "0",
                    "-cpu-used",
                    "6",
                    "-row-mt",
                    "1",
                    "-tiles",
                    "2x2",
                    "-c:a",
                    "libopus",
                    "-b:a",
                    rate.as_str(),
                ];
                push_all(args, &list);
                assert(views(list@) =~= seq![
                    "-c:v"@,
                    "libaom-av1"@,
                    "-pix_fmt"@,
                    "yuv420p10le"@,
                    "-crf"@,
                    settings@.crf_text(),
                    "-b:v"@,
                    "0"@,
                    "-cpu-used"@,
                    "6"@,
                    "-row-mt"@,
                    "1"@,
                    "-tiles"@,
                    "2x2"@,
                    "-c:a"@,
                    "libopus"@,
                    "-b:a"@,
                    settings@.audio_rate(),
                ]);
            },
            ExportPreset::Av1SvtMkv => {
                let rate = settings.audio_rate_text();
                let crf = settings.crf_words();
                let list = [
                    "-c:v",
                    "libsvtav1",
                    "-pix_fmt",
                    "yuv420p10le",
                    "-crf",
                    crf.as_str(),
                    "-preset",
                    "8",
                    "-c:a",
                    "libopus",
                    "-b:a",
                    rate.as_str(),
                ];
                push_all(args, &list);
                assert(views(list@) =~= seq![
                    "-c:v"@,
                    "libsvtav1"@,
                    "-pix_fmt"@,
                    "yuv420p10le"@,
                    "-crf"@,
                    settings@.crf_text(),
                    "-preset"@,
                    "8"@,
                    "-c:a"@,
                    "libopus"@,
                    "-b:a"@,
                    settings@.audio_rate(),
                ]);
            },
            ExportPreset::DnxhrHqMov => {
                let list = [
                    "-c:v",
                    "dnxhd",
                    "-profile:v",
                    "dnxhr_hq",
                    "-pix_fmt",
                    "yuv422p10le",
                    "-c:a",
                    "pcm_s24le",
                ];
                push_all(args, &list);
                assert(views(list@) =~= seq![
                    "-c:v"@,
                    "dnxhd"@,
                    "-profile:v"@,
                    "dnxhr_hq"@,
                    "-pix_fmt"@,
                    "yuv422p10le"@,
                    "-c:a"@,
                    "pcm_s24le"@,
                ]);
            },
            ExportPreset::ProRes422Mov => {
                let list = [
                    "-c:v",
                    "prores_ks",
                    "-profile:v",
                    "2",
                    "-pix_fmt",
                    "yuv422p10le",
                    "-c:a",
                    "pcm_s16le",
                ];
                push_all(args, &list);
                assert(views(list@) =~= seq![
                    "-c:v"@,
                    "prores_ks"@,
                    "-profile:v"@,
                    "2"@,
                    "-pix_fmt"@,
                    "yuv422p10le"@,
                    "-c:a"@,
                    "pcm_s16le"@,
                ]);
            },
            ExportPreset::ProRes422HqMov => {
                let list = [
                    "-c:v",
                    "prores_ks",
                    "-profile:v",
                    "3",
                    "-pix_fmt",
                    "yuv422p10le",
                    "-c:a",
                    "pcm_s16le",
                ];
                push_all(args, &list);
                assert(views(list@) =~= seq![
                    "-c:v"@,
                    "prores_ks"@,
                    "-profile:v"@,
                    "3"@,
                    "-pix_fmt"@,
                    "yuv422p10le"@,
                    "-c:a"@,
                    "pcm_s16le"@,
                ]);
            },
            ExportPreset::ProRes444Mov => {
                let list = [
                    "-c:v",
                    "prores_ks",
                    "-profile:v",
                    "4",
                    "-pix_fmt",
                    "yuv444p10le",
                    "-c:a",
                    "pcm_s16le",
                ];
                push_all(args, &list);
                assert(views(list@) =~= seq![
                    "-c:v"@,
                    "prores_ks"@,
                    "-profile:v"@,
                    "4"@,
                    "-pix_fmt"@,
                    "yuv444p10le"@,
                    "-c:a"@,
                    "pcm_s16le"@,
                ]);
            },
            ExportPreset::ProRes4444Mov => {
                let list = [
                    "-c:v",
                    "prores_ks",
                    "-profile:v",
                    "4",
                    "-pix_fmt",
                    "yuva444p10le",
                    "-c:a",
                    "pcm_s16le",
                ];
                push_all(args, &list);
                assert(views(list@) =~= seq![
                    "-c:v"@,
                    "prores_ks"@,
                    "-profile:v"@,
                    "4"@,
                    "-pix_fmt"@,
                    "yuva444p10le"@,
                    "-c:a"@,
                    "pcm_s16le"@,
                ]);
            },
            ExportPreset::AacM4a => {
                let rate = settings.audio_rate_text();
                let list = [
                    "-vn",
                    "-c:a",
                    "aac",
                    "-b:a",
                    rate.as_str(),
                ];
                push_all(args, &list);
                assert(views(list@) =~= seq![
                    "-vn"@,
                    "-c:a"@,
                    "aac"@,
                    "-b:a"@,
                    settings@.audio_rate(),
                ]);
            },
            ExportPreset::Mp3 => {
                let rate = settings.audio_rate_text();
                let list = [
                    "-vn",
                    "-c:a",
                    "libmp3lame",
                    "-b:a",
                    rate.as_str(),
                ];
                push_all(args, &list);
                assert(views(list@) =~= seq![
                    "-vn"@,
                    "-c:a"@,
                    "libmp3lame"@,
                    "-b:a"@,
                    settings@.audio_rate(),
                ]);
            },
            ExportPreset::Opus => {
                let rate = settings.audio_rate_text();
                let list = [
                    "-vn",
                    "-c:a",
                    "libopus",
                    "-b:a",
                    rate.as_str(),
                ];
                push_all(args, &list);
                assert(views(list@) =~= seq![
                    "-vn"@,
                    "-c:a"@,
                    "libopus"@,
                    "-b:a"@,
                    settings@.audio_rate(),
                ]);
            },
            ExportPreset::Flac => {
                let list = [
                    "-vn",
                    "-c:a",
                    "flac",
                ];
                push_all(args, &list);
                assert(views(list@) =~= seq![
                    "-vn"@,
                    "-c:a"@,
                    "flac"@,
                ]);
            },
            ExportPreset::WavPcm => {
                let list = [
                    "-vn",
                    "-c:a",
                    "pcm_s16le",
                ];
                push_all(args, &list);
                assert(views(list@) =~= seq![
                    "-vn"@,
                    "-c:a"@,
                    "pcm_s16le"@,
                ]);
            },
        }
    }
}

/// The frame rates that are offered.
pub const UI_EXPORT_FPS_CHOICES: [u32; 11] = [24, 25, 30, 48, 50, 60, 72, 90, 100, 120, 144];

/// The frame rates that are offered.
pub fn export_fps_choices_for_ui() -> (all: &'static [u32])
    ensures
        all@ == seq![24u32, 25, 30, 48, 50, 60, 72, 90, 100, 120, 144],
{
    let all: &'static [u32] = &UI_EXPORT_FPS_CHOICES;
    assert(all@ =~= seq![24u32, 25, 30, 48, 50, 60, 72, 90, 100, 120, 144]);
    all
}

/// The sizes that are offered, each with its id and its name.
pub fn export_resolution_choices_for_ui() -> (all: &'static [(&'static str, &'static str)])
    ensures
        all@.len() == resolution_choices().len(),
        forall|i: int|
            0 <= i < all@.len() ==> (#[trigger] all@[i]).0@ == resolution_choices()[i].0
                && all@[i].1@ == resolution_choices()[i].1,
{
    let all: &'static [(&'static str, &'static str)] = &UI_EXPORT_RESOLUTION_CHOICES;
    all
}

/// The sizes that are offered, each with its id and its name.
pub open spec fn resolution_choices() -> Seq<(Seq<char>, Seq<char>)> {
    seq![
        ("canvas"@, "Match Canvas"@),
        ("7680x4320"@, "8K UHD 7680x4320"@),
        ("4320x7680"@, "Vertical 4320x7680 (8K)"@),
        ("5120x2880"@, "5K UHD 5120x2880"@),
        ("2880x5120"@, "Vertical 2880x5120 (5K)"@),
        ("4096x2160"@, "DCI 4K 4096x2160"@),
        ("3840x2160"@, "4K UHD 3840x2160"@),
        ("2560x1440"@, "QHD 2560x1440"@),
        ("1920x1080"@, "Full HD 1920x1080"@),
        ("1080x1920"@, "Vertical 1080x1920"@),
        ("1600x1200"@, "UXGA 1600x1200 (4:3)"@),
        ("1200x1600"@, "Vertical 1200x1600 (4:3)"@),
        ("1440x1080"@, "HDV 1440x1080 (4:3)"@),
        ("1080x1440"@, "Vertical 1080x1440 (4:3)"@),
        ("1024x768"@, "XGA 1024x768 (4:3)"@),
        ("768x1024"@, "Vertical 768x1024 (4:3)"@),
        ("854x480"@, "SD 480p 854x480"@),
        ("480x854"@, "Vertical 480x854"@),
        ("1280x720"@, "HD 1280x720"@),
        ("720x1280"@, "Vertical 720x1280"@),
        ("640x360"@, "SD 360p 640x360"@),
        ("360x640"@, "Vertical 360x640"@),
        ("256x144"@, "Low 144p 256x144"@),
        ("144x256"@, "Vertical 144x256"@),
        ("1080x1080"@, "Square 1080x1080"@),
    ]
}

/// The sizes that are offered, each with its id and its name.
pub const UI_EXPORT_RESOLUTION_CHOICES: [(&'static str, &'static str); 25] = [
    ("canvas", "Match Canvas"),
    ("7680x4320", "8K UHD 7680x4320"),
    ("4320x7680", "Vertical 4320x7680 (8K)"),
    ("5120x2880", "5K UHD 5120x2880"),
    ("2880x5120", "Vertical 2880x5120 (5K)"),
    ("4096x2160", "DCI 4K 4096x2160"),
    ("3840x2160", "4K UHD 3840x2160"),
    ("2560x1440", "QHD 2560x1440"),
    ("1920x1080", "Full HD 1920x1080"),
    ("1080x1920", "Vertical 1080x1920"),
    ("1600x1200", "UXGA 1600x1200 (4:3)"),
    ("1200x1600", "Vertical 1200x1600 (4:3)"),
    ("1440x1080", "HDV 1440x1080 (4:3)"),
    ("1080x1440", "Vertical 1080x1440 (4:3)"),
    ("1024x768", "XGA 1024x768 (4:3)"),
    ("768x1024", "Vertical 768x1024 (4:3)"),
    ("854x480", "SD 480p 854x480"),
    ("480x854", "Vertical 480x854"),
    ("1280x720", "HD 1280x720"),
    ("720x1280", "Vertical 720x1280"),
    ("640x360", "SD 360p 640x360"),
    ("360x640", "Vertical 360x640"),
    ("256x144", "Low 144p 256x144"),
    ("144x256", "Vertical 144x256"),
    ("1080x1080", "Square 1080x1080"),
];

/// Adds a text to a list.
pub fn push_text(args: &mut Vec<String>, text: &str)
    ensures
        views(final(args)@) == views(old(args)@).push(text@),
{
    reveal(views);
    let ghost before = args@;
    args.push(crate::text::owned(text));
    assert(views(args@) =~= views(before).push(text@));
}

/// Adds texts to a list.
pub fn push_all(args: &mut Vec<String>, more: &[&str])
    ensures
        views(final(args)@) == views(old(args)@) + views(more@),
{
    reveal(views);
    let ghost before = args@;
    let mut i: usize = 0;
    assert(views(args@) =~= views(before) + views(more@.take(0)));
    while i < more.len()
        invariant
            i <= more.len(),
            views(args@) == views(before) + views(more@.take(i as int)),
        decreases more.len() - i,
    {
        reveal(views);
        push_text(args, more[i]);
        i += 1;
        assert(views(args@) =~= views(before) + views(more@.take(i as int)));
    }
    assert(more@.take(i as int) =~= more@);
}

/// The settings of an export.
#[derive(Debug, Clone)]
pub struct ExportSettings {
    pub fps: u32,
    pub crf: u8,
    pub encoder_preset: String,
    pub audio_bitrate_kbps: u32,
}

/// What the settings are.
pub ghost struct ExportSettingsView {
    pub fps: int,
    pub crf: int,
    pub encoder_preset: Seq<char>,
    pub audio_bitrate_kbps: int,
}

impl View for ExportSettings {
    type V = ExportSettingsView;

    open spec fn view(&self) -> ExportSettingsView {
        ExportSettingsView {
            fps: self.fps as int,
            crf: self.crf as int,
            encoder_preset: self.encoder_preset@,
            audio_bitrate_kbps: self.audio_bitrate_kbps as int,
        }
    }
}

/// The number, brought between two bounds.
pub open spec fn bounded(n: int, low: int, high: int) -> int {
    if n < low {
        low
    } else if n > high {
        high
    } else {
        n
    }
}

impl ExportSettingsView {
    /// The frame rate that is used.
    pub open spec fn rate(self) -> int {
        bounded(self.fps, 1, 144)
    }

    /// The bit rate of the sound that is used, as an option is written.
    pub open spec fn audio_rate(self) -> Seq<char> {
        decimal(bounded(self.audio_bitrate_kbps, 64, 512)) + "k"@
    }

    /// The constant rate factor that is used, in decimal.
    pub open spec fn crf_text(self) -> Seq<char> {
        decimal(bounded(self.crf, 0, 51))
    }
}

impl Default for ExportSettings {
    fn default() -> (settings: ExportSettings)
        ensures
            settings@ == (ExportSettingsView {
                fps: 30,
                crf: 20,
                encoder_preset: "medium"@,
                audio_bitrate_kbps: 192,
            }),
    {
        ExportSettings {
            fps: 30,
            crf: 20,
            encoder_preset: crate::text::owned("medium"),
            audio_bitrate_kbps: 192,
        }
    }
}

impl ExportSettings {
    /// The frame rate that is used.
    pub fn normalized_fps(&self) -> (n: u32)
        ensures
            n == self@.rate(),
    {
        if self.fps < 1 {
            1
        } else if self.fps > 144 {
            144
        } else {
            self.fps
        }
    }

    /// The constant rate factor that is used.
    pub fn normalized_crf(&self) -> (n: u8)
        ensures
            n == bounded(self@.crf, 0, 51),
    {
        if self.crf > 51 {
            51
        } else {
            self.crf
        }
    }

    /// The bit rate of the sound that is used.
    pub fn normalized_audio_bitrate_kbps(&self) -> (n: u32)
        ensures
            n == bounded(self@.audio_bitrate_kbps, 64, 512),
    {
        if self.audio_bitrate_kbps < 64 {
            64
        } else if self.audio_bitrate_kbps > 512 {
            512
        } else {
            self.audio_bitrate_kbps
        }
    }

    /// The bit rate of the sound that is used, as an option is written.
    pub fn audio_rate_text(&self) -> (text: String)
        ensures
            text@ == self@.audio_rate(),
    {
        joined(decimal_text(self.normalized_audio_bitrate_kbps() as u64).as_str(), "k")
    }

    /// The constant rate factor that is used, in decimal.
    pub fn crf_words(&self) -> (text: String)
        ensures
            text@ == self@.crf_text(),
    {
        decimal_text(self.normalized_crf() as u64)
    }
}

/// The part of the timeline that is exported.
#[derive(Debug, Clone, Copy, PartialEq, Eq, Structural)]
pub struct ExportRange {
    pub start: Duration,
    pub end: Duration,
}

impl ExportRange {
    /// How long it is; nothing where it ends before it starts.
    pub fn duration(self) -> (d: Duration)
        ensures
            d@ == monus(self.end@, self.start@),
    {
        self.end.saturating_sub(self.start)
    }
}

/// The shortest time that is exported, a thousandth of a second.
pub const SHORTEST_EXPORT: u128 = 1_000_000;

/// The part to export, kept within the timeline; nothing where it is too short or
/// the whole timeline.
pub open spec fn normalized_range(range: Option<ExportRange>, timeline_max: int) -> Option<
    (int, int),
> {
    match range {
        None => None,
        Some(r) => {
            let start = least(r.start@, timeline_max);
            let end = least(r.end@, timeline_max);
            if end <= start + SHORTEST_EXPORT || (start <= SHORTEST_EXPORT && end >= timeline_max) {
                None
            } else {
                Some((start, end))
            }
        },
    }
}

/// A part that is left is within the timeline, longer than the shortest and not all
/// of it; narrowing it again changes nothing.
pub proof fn normalized_range_is_proper(range: ExportRange, timeline_max: int)
    ensures
        normalized_range(Some(range), timeline_max) matches Some((start, end)) ==> {
            &&& start < end <= timeline_max
            &&& end - start > SHORTEST_EXPORT
            &&& start > SHORTEST_EXPORT || end < timeline_max
            &&& range.start@ <= start || start == timeline_max
            &&& forall|again: ExportRange|
                again.start@ == start && again.end@ == end ==> #[trigger] normalized_range(
                    Some(again),
                    timeline_max,
                ) == Some((start, end))
        },
{
}

/// The part to export, kept within the timeline.
pub fn normalize_export_range(range: Option<ExportRange>, timeline_max: Duration) -> (kept: Option<
    ExportRange,
>)
    ensures
        match (kept, normalized_range(range, timeline_max@)) {
            (Some(r), Some((start, end))) => r.start@ == start && r.end@ == end,
            (None, None) => true,
            _ => false,
        },
{
    match range {
        None => None,
        Some(r) => {
            let start = r.start.min(timeline_max);
            let end = r.end.min(timeline_max);
            if end.nanos <= start.nanos.saturating_add(SHORTEST_EXPORT) || (start.nanos
                <= SHORTEST_EXPORT && timeline_max.nanos <= end.nanos) {
                None
            } else {
                Some(ExportRange { start, end })
            }
        },
    }
}

/// How far an export has come.
#[derive(Debug, Clone)]
pub struct ExportProgress {
    pub rendered: Duration,
    pub total: Duration,
    pub speed: Option<String>,
}

/// Texts that differ in their length or at some place differ.
proof fn lemma_differ(a: Seq<char>, b: Seq<char>, i: int)
    requires
        a.len() != b.len() || a[i] != b[i],
    ensures
        a != b,
{
}

/// Both tables read back: an id that is written names the one that wrote it, and no two
/// share one.
pub proof fn mode_ids_differ(a: ExportMode, b: ExportMode)
    ensures
        a.id_text() == b.id_text() <==> a == b,
{
    reveal_strlit("smart_universal");
    reveal_strlit("keep_source_copy");
    reveal_strlit("preset_reencode");
    if a != b {
        lemma_differ(a.id_text(), b.id_text(), 0);
    }
}

/// A place at which the ids of two presets differ, where they are as long as each other.
spec fn difference(a: ExportPreset, b: ExportPreset) -> int {
    let x = a.id_text();
    let y = b.id_text();
    if x[0] != y[0] {
        0
    } else if x[2] != y[2] {
        2
    } else {
        8
    }
}

/// An id that is written names the preset that wrote it, and no two share one.
pub proof fn preset_ids_differ(a: ExportPreset, b: ExportPreset)
    ensures
        a.id_text() == b.id_text() <==> a == b,
{
    reveal_strlit("h264_mp4");
    reveal_strlit("h264_videotoolbox_mp4");
    reveal_strlit("hevc_mp4");
    reveal_strlit("vp8_webm");
    reveal_strlit("vp9_webm");
    reveal_strlit("av1_libaom_mkv");
    reveal_strlit("av1_svt_mkv");
    reveal_strlit("dnxhr_hq_mov");
    reveal_strlit("prores_422_mov");
    reveal_strlit("prores_422_hq_mov");
    reveal_strlit("prores_444_mov");
    reveal_strlit("prores_4444_mov");
    reveal_strlit("aac_m4a");
    reveal_strlit("mp3");
    reveal_strlit("opus");
    reveal_strlit("flac");
    reveal_strlit("wav_pcm");
    if a != b {
        lemma_differ(a.id_text(), b.id_text(), difference(a, b));
    }
}

} // verus!
