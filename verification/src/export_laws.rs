//! What an export writes, how long it is and how far it has come.
use crate::clip::ClipView;
use crate::export_gpu::part_of;
use crate::export_run::{
    copy_command, is_single_copy, latest_clip, latest_overlay, latest_sound, latest_subtitle,
    latest_subtitle_row, ExportTimelineView, ProgressView,
};
use crate::export_settings::{normalized_range, ExportPreset, ExportRange, ExportSettingsView};
use crate::filter_words::seconds_in_six_digits;
use crate::graph_laws::{says, time_fits};
use crate::subtitle::{SubtitleClipView, SubtitleTrackView};
use crate::text::{decimal, number, trimmed};
use crate::time::MAX_NANOS;
use crate::tracks::{AudioTrackView, VideoTrackView};
use vstd::prelude::*;

verus! {

// ---------------------------------------------------------------------------
// Copies
// ---------------------------------------------------------------------------

/// A clip that is copied as it is comes from its piece of its file: from the time of the file that is
/// shown where the range starts, or where the clip does, for as long as that lasts.
pub proof fn copied_clip_is_its_piece(
    t: ExportTimelineView,
    range: Option<ExportRange>,
    out_path: Seq<char>,
)
    requires
        is_single_copy(t),
        time_fits(t.v1[0].start),
        time_fits(t.v1[0].start + t.v1[0].duration),
        time_fits(t.v1[0].source_in),
        time_fits(t.v1[0].source_in + t.v1[0].duration),
        t.v1[0].duration > 1_000_000,
        range matches Some(r) ==> t.v1[0].start <= r.start@ && r.end@ <= t.v1[0].start
            + t.v1[0].duration && r.start@ + 1_000_000 < r.end@,
    ensures
        ({
            let c = t.v1[0];
            let (from, length) = match range {
                Some(r) => (c.source_in + (r.start@ - c.start), r.end@ - r.start@),
                None => (c.source_in, c.duration),
            };
            copy_command(t, range, out_path) matches Some(command) && {
                &&& says(command, "-ss"@, seconds_in_six_digits(from as nat))
                &&& says(command, "-t"@, seconds_in_six_digits(length as nat))
                &&& says(command, "-i"@, c.file_path)
                &&& says(command, "-c"@, "copy"@)
                &&& command.last() == out_path
            }
        }),
{
    reveal(part_of);
    reveal(copy_command);
    reveal(crate::export_run::copy_args);
    let command = copy_command(t, range, out_path)->0;
    let i = 2int;
    assert(command[i] == "-ss"@ && command[i + 1] == command[3]);
    let i = 4int;
    assert(command[i] == "-t"@ && command[i + 1] == command[5]);
    let i = 6int;
    assert(command[i] == "-i"@ && command[i + 1] == command[7]);
    let i = 12int;
    assert(command[i] == "-c"@ && command[i + 1] == "copy"@);
}

/// A range that lies in the timeline, lasts for more than a millisecond and is not all of it is
/// exported as it is; one that reaches past the end is exported up to the end.
pub proof fn proper_range_is_kept(r: ExportRange, length: int)
    requires
        r.start@ + 1_000_000 < r.end@,
        r.start@ > 1_000_000 || r.end@ < length,
        r.start@ + 1_000_000 < length,
    ensures
        normalized_range(Some(r), length) == Some(
            (
                r.start@,
                if r.end@ <= length {
                    r.end@
                } else {
                    length
                },
            ),
        ),
        normalized_range(None, length) is None,
{
}

// ---------------------------------------------------------------------------
// Lengths
// ---------------------------------------------------------------------------

/// Whether a clip ends at a time.
pub open spec fn some_ends(clips: Seq<ClipView>, t: int) -> bool {
    exists|i: int| 0 <= i < clips.len() && (#[trigger] clips[i]).start + clips[i].duration == t
}

/// Whether a subtitle ends at a time.
pub open spec fn some_subtitle_ends(clips: Seq<SubtitleClipView>, t: int) -> bool {
    exists|i: int| 0 <= i < clips.len() && (#[trigger] clips[i]).start + clips[i].duration == t
}

/// Whether a sound ends at a time.
pub open spec fn some_sound_ends(tracks: Seq<AudioTrackView>, t: int) -> bool {
    exists|k: int| 0 <= k < tracks.len() && some_ends((#[trigger] tracks[k]).clips, t)
}

/// Whether a picture, a sound or a subtitle of what is exported ends at a time.
pub open spec fn something_ends(t: ExportTimelineView, end: int) -> bool {
    ||| some_ends(t.v1, end)
    ||| exists|k: int| 0 <= k < t.overlays.len() && some_ends((#[trigger] t.overlays[k]).clips, end)
    ||| some_sound_ends(t.sounds, end)
    ||| exists|k: int|
        0 <= k < t.subtitles.len() && some_subtitle_ends((#[trigger] t.subtitles[k]).clips, end)
}

proof fn lemma_clip_hit(clips: Seq<ClipView>, before: int)
    ensures
        ({
            let t = latest_clip(clips, before);
            t == before || t == MAX_NANOS || some_ends(clips, t)
        }),
    decreases clips.len(),
{
    if clips.len() > 0 {
        let front = clips.drop_last();
        lemma_clip_hit(front, before);
        let t = latest_clip(clips, before);
        let n = clips.len() - 1;
        if t == clips[n].start + clips[n].duration {
        } else if some_ends(front, t) {
            let i = choose|i: int|
                0 <= i < front.len() && (#[trigger] front[i]).start + front[i].duration == t;
            assert(clips[i].start + clips[i].duration == t);
        }
    }
}

proof fn lemma_subtitle_hit(clips: Seq<SubtitleClipView>, before: int)
    ensures
        ({
            let t = latest_subtitle(clips, before);
            t == before || t == MAX_NANOS || some_subtitle_ends(clips, t)
        }),
    decreases clips.len(),
{
    if clips.len() > 0 {
        let front = clips.drop_last();
        lemma_subtitle_hit(front, before);
        let t = latest_subtitle(clips, before);
        let n = clips.len() - 1;
        if t == clips[n].start + clips[n].duration {
        } else if some_subtitle_ends(front, t) {
            let i = choose|i: int|
                0 <= i < front.len() && (#[trigger] front[i]).start + front[i].duration == t;
            assert(clips[i].start + clips[i].duration == t);
        }
    }
}

proof fn lemma_overlay_hit(tracks: Seq<VideoTrackView>, before: int)
    ensures
        ({
            let t = latest_overlay(tracks, before);
            t == before || t == MAX_NANOS || exists|k: int|
                0 <= k < tracks.len() && some_ends((#[trigger] tracks[k]).clips, t)
        }),
    decreases tracks.len(),
{
    if tracks.len() > 0 {
        let front = tracks.drop_last();
        lemma_overlay_hit(front, before);
        let a = latest_overlay(front, before);
        lemma_clip_hit(tracks.last().clips, a);
        let t = latest_overlay(tracks, before);
        let n = tracks.len() - 1;
        assert(tracks[n] == tracks.last());
        if some_ends(tracks[n].clips, t) {
        } else if t == a && t != before && t != MAX_NANOS {
            let k = choose|k: int| 0 <= k < front.len() && some_ends((#[trigger] front[k]).clips, t);
            assert(tracks[k] == front[k]);
        }
    }
}

proof fn lemma_sound_hit(tracks: Seq<AudioTrackView>, before: int)
    ensures
        ({
            let t = latest_sound(tracks, before);
            t == before || t == MAX_NANOS || some_sound_ends(tracks, t)
        }),
    decreases tracks.len(),
{
    if tracks.len() > 0 {
        let front = tracks.drop_last();
        lemma_sound_hit(front, before);
        let a = latest_sound(front, before);
        lemma_clip_hit(tracks.last().clips, a);
        let t = latest_sound(tracks, before);
        let n = tracks.len() - 1;
        assert(tracks[n] == tracks.last());
        if some_ends(tracks[n].clips, t) {
        } else if t == a && t != before && t != MAX_NANOS {
            let k = choose|k: int| 0 <= k < front.len() && some_ends((#[trigger] front[k]).clips, t);
            assert(tracks[k] == front[k]);
        }
    }
}

proof fn lemma_subtitle_row_hit(tracks: Seq<SubtitleTrackView>, before: int)
    ensures
        ({
            let t = latest_subtitle_row(tracks, before);
            t == before || t == MAX_NANOS || exists|k: int|
                0 <= k < tracks.len() && some_subtitle_ends((#[trigger] tracks[k]).clips, t)
        }),
    decreases tracks.len(),
{
    if tracks.len() > 0 {
        let front = tracks.drop_last();
        lemma_subtitle_row_hit(front, before);
        let a = latest_subtitle_row(front, before);
        lemma_subtitle_hit(tracks.last().clips, a);
        let t = latest_subtitle_row(tracks, before);
        let n = tracks.len() - 1;
        assert(tracks[n] == tracks.last());
        if some_subtitle_ends(tracks[n].clips, t) {
        } else if t == a && t != before && t != MAX_NANOS {
            let k = choose|k: int|
                0 <= k < front.len() && some_subtitle_ends((#[trigger] front[k]).clips, t);
            assert(tracks[k] == front[k]);
        }
    }
}

/// An export ends when something ends, or lasts for five seconds where nothing is there; one of sound
/// alone ends when a sound ends. The longest length that can be written down is the most.
pub proof fn export_ends_with_something(t: ExportTimelineView)
    ensures
        something_ends(t, t.length()) || t.length() == 5_000_000_000 || t.length() == MAX_NANOS,
        some_sound_ends(t.sounds, t.sound_length()) || t.sound_length() == 5_000_000_000
            || t.sound_length() == MAX_NANOS,
{
    let a = latest_clip(t.v1, 0);
    let b = latest_overlay(t.overlays, a);
    let c = latest_sound(t.sounds, b);
    lemma_clip_hit(t.v1, 0);
    lemma_overlay_hit(t.overlays, a);
    lemma_sound_hit(t.sounds, b);
    lemma_subtitle_row_hit(t.subtitles, c);
    lemma_sound_hit(t.sounds, 0);
}

/// An export lasts at least until any picture, sound or subtitle ends.
pub proof fn export_covers_every_row(t: ExportTimelineView, k: int, i: int)
    ensures
        0 <= i < t.v1.len() && t.v1[i].start + t.v1[i].duration <= MAX_NANOS && t.v1[i].start
            + t.v1[i].duration > 0 ==> t.length() >= t.v1[i].start + t.v1[i].duration,
        0 <= k < t.overlays.len() && 0 <= i < t.overlays[k].clips.len() && {
            let c = t.overlays[k].clips[i];
            0 < c.start + c.duration <= MAX_NANOS
        } ==> t.length() >= t.overlays[k].clips[i].start + t.overlays[k].clips[i].duration,
        0 <= k < t.sounds.len() && 0 <= i < t.sounds[k].clips.len() && {
            let c = t.sounds[k].clips[i];
            0 < c.start + c.duration <= MAX_NANOS
        } ==> t.length() >= t.sounds[k].clips[i].start + t.sounds[k].clips[i].duration
            && t.sound_length() >= t.sounds[k].clips[i].start + t.sounds[k].clips[i].duration,
        0 <= k < t.subtitles.len() && 0 <= i < t.subtitles[k].clips.len() && {
            let c = t.subtitles[k].clips[i];
            0 < c.start + c.duration <= MAX_NANOS
        } ==> t.length() >= t.subtitles[k].clips[i].start + t.subtitles[k].clips[i].duration,
{
    let a = latest_clip(t.v1, 0);
    let b = latest_overlay(t.overlays, a);
    let c = latest_sound(t.sounds, b);
    lemma_clip_end(t.v1, 0, i);
    lemma_overlay_end(t.overlays, a, k, i);
    lemma_sound_end(t.sounds, b, k, i);
    lemma_sound_end(t.sounds, 0, k, i);
    lemma_subtitle_row_end(t.subtitles, c, k, i);
}

proof fn lemma_clip_end(clips: Seq<ClipView>, before: int, i: int)
    ensures
        latest_clip(clips, before) >= before,
        0 <= i < clips.len() && clips[i].start + clips[i].duration <= MAX_NANOS ==> latest_clip(
            clips,
            before,
        ) >= clips[i].start + clips[i].duration,
    decreases clips.len(),
{
    if clips.len() > 0 {
        lemma_clip_end(clips.drop_last(), before, i);
        if 0 <= i < clips.len() - 1 {
            assert(clips.drop_last()[i] == clips[i]);
        }
    }
}

proof fn lemma_subtitle_end(clips: Seq<SubtitleClipView>, before: int, i: int)
    ensures
        latest_subtitle(clips, before) >= before,
        0 <= i < clips.len() && clips[i].start + clips[i].duration <= MAX_NANOS ==> latest_subtitle(
            clips,
            before,
        ) >= clips[i].start + clips[i].duration,
    decreases clips.len(),
{
    if clips.len() > 0 {
        lemma_subtitle_end(clips.drop_last(), before, i);
        if 0 <= i < clips.len() - 1 {
            assert(clips.drop_last()[i] == clips[i]);
        }
    }
}

proof fn lemma_overlay_end(tracks: Seq<VideoTrackView>, before: int, k: int, i: int)
    ensures
        latest_overlay(tracks, before) >= before,
        0 <= k < tracks.len() && 0 <= i < tracks[k].clips.len() && tracks[k].clips[i].start
            + tracks[k].clips[i].duration <= MAX_NANOS ==> latest_overlay(tracks, before)
            >= tracks[k].clips[i].start + tracks[k].clips[i].duration,
    decreases tracks.len(),
{
    if tracks.len() > 0 {
        let front = tracks.drop_last();
        lemma_overlay_end(front, before, k, i);
        lemma_clip_end(tracks.last().clips, latest_overlay(front, before), i);
        if 0 <= k < tracks.len() - 1 {
            assert(front[k] == tracks[k]);
        }
    }
}

proof fn lemma_sound_end(tracks: Seq<AudioTrackView>, before: int, k: int, i: int)
    ensures
        latest_sound(tracks, before) >= before,
        0 <= k < tracks.len() && 0 <= i < tracks[k].clips.len() && tracks[k].clips[i].start
            + tracks[k].clips[i].duration <= MAX_NANOS ==> latest_sound(tracks, before)
            >= tracks[k].clips[i].start + tracks[k].clips[i].duration,
    decreases tracks.len(),
{
    if tracks.len() > 0 {
        let front = tracks.drop_last();
        lemma_sound_end(front, before, k, i);
        lemma_clip_end(tracks.last().clips, latest_sound(front, before), i);
        if 0 <= k < tracks.len() - 1 {
            assert(front[k] == tracks[k]);
        }
    }
}

proof fn lemma_subtitle_row_end(tracks: Seq<SubtitleTrackView>, before: int, k: int, i: int)
    ensures
        latest_subtitle_row(tracks, before) >= before,
        0 <= k < tracks.len() && 0 <= i < tracks[k].clips.len() && tracks[k].clips[i].start
            + tracks[k].clips[i].duration <= MAX_NANOS ==> latest_subtitle_row(tracks, before)
            >= tracks[k].clips[i].start + tracks[k].clips[i].duration,
    decreases tracks.len(),
{
    if tracks.len() > 0 {
        let front = tracks.drop_last();
        lemma_subtitle_row_end(front, before, k, i);
        lemma_subtitle_end(tracks.last().clips, latest_subtitle_row(front, before), i);
        if 0 <= k < tracks.len() - 1 {
            assert(front[k] == tracks[k]);
        }
    }
}

// ---------------------------------------------------------------------------
// Progress
// ---------------------------------------------------------------------------

/// A line that tells how many microseconds are done says how much is rendered; the speed that was told
/// stays.
pub proof fn told_microseconds_are_rendered(
    p: ProgressView,
    line: Seq<char>,
    value: Seq<char>,
    micros: int,
)
    requires
        trimmed(line) == "out_time_us="@ + value,
        number(trimmed(value), u64::MAX as int) == Some(micros),
    ensures
        p.after_line(line) == (ProgressView { rendered: micros * 1000, ..p }),
{
    let l = trimmed(line);
    assert("out_time_us="@.is_prefix_of(l));
    assert(l.skip("out_time_us="@.len() as int) =~= value);
}

// ---------------------------------------------------------------------------
// Formats
// ---------------------------------------------------------------------------

/// The encoder of the pictures of a format. On some systems one that comes with them is used.
pub open spec fn picture_encoder(preset: ExportPreset, macos: bool) -> Option<Seq<char>> {
    match preset {
        ExportPreset::H264Mp4 => Some(
            if macos {
                "h264_videotoolbox"@
            } else {
                "libopenh264"@
            },
        ),
        ExportPreset::HevcMp4 => Some(
            if macos {
                "hevc_videotoolbox"@
            } else {
                "libopenh264"@
            },
        ),
        ExportPreset::H264VideotoolboxMp4 => Some("h264_videotoolbox"@),
        ExportPreset::Vp8Webm => Some("libvpx"@),
        ExportPreset::Vp9Webm => Some("libvpx-vp9"@),
        ExportPreset::Av1LibaomMkv => Some("libaom-av1"@),
        ExportPreset::Av1SvtMkv => Some("libsvtav1"@),
        ExportPreset::DnxhrHqMov => Some("dnxhd"@),
        ExportPreset::ProRes422Mov
        | ExportPreset::ProRes422HqMov
        | ExportPreset::ProRes444Mov
        | ExportPreset::ProRes4444Mov => Some("prores_ks"@),
        ExportPreset::AacM4a
        | ExportPreset::Mp3
        | ExportPreset::Opus
        | ExportPreset::Flac
        | ExportPreset::WavPcm => None,
    }
}

/// The encoder of the sounds of a format, and where it is named.
pub open spec fn sound_encoder(preset: ExportPreset, macos: bool) -> (Seq<char>, int) {
    match preset {
        ExportPreset::H264Mp4 => (
            "aac"@,
            if macos {
                12
            } else {
                10
            },
        ),
        ExportPreset::HevcMp4 => (
            "aac"@,
            if macos {
                14
            } else {
                10
            },
        ),
        ExportPreset::H264VideotoolboxMp4 => ("aac"@, 12),
        ExportPreset::Vp8Webm => ("libopus"@, 12),
        ExportPreset::Vp9Webm => ("libopus"@, 18),
        ExportPreset::Av1LibaomMkv => ("libopus"@, 14),
        ExportPreset::Av1SvtMkv => ("libopus"@, 8),
        ExportPreset::DnxhrHqMov => ("pcm_s24le"@, 6),
        ExportPreset::ProRes422Mov
        | ExportPreset::ProRes422HqMov
        | ExportPreset::ProRes444Mov
        | ExportPreset::ProRes4444Mov => ("pcm_s16le"@, 6),
        ExportPreset::AacM4a => ("aac"@, 1),
        ExportPreset::Mp3 => ("libmp3lame"@, 1),
        ExportPreset::Opus => ("libopus"@, 1),
        ExportPreset::Flac => ("flac"@, 1),
        ExportPreset::WavPcm => ("pcm_s16le"@, 1),
    }
}

/// Every format is written with its own encoders; one of sound alone with no pictures. Where the sound
/// is compressed with loss, at the rate of the settings, from 64 to 512.
pub proof fn format_has_its_encoders(preset: ExportPreset, s: ExportSettingsView, macos: bool)
    ensures
        ({
            let args = preset.output_args(s, macos);
            let sound = sound_encoder(preset, macos);
            let rate = if s.audio_bitrate_kbps < 64 {
                64
            } else if s.audio_bitrate_kbps > 512 {
                512
            } else {
                s.audio_bitrate_kbps
            };
            &&& picture_encoder(preset, macos) matches Some(e) ==> says(args, "-c:v"@, e)
            &&& picture_encoder(preset, macos) is None ==> args[0] == "-vn"@
            &&& says(args, "-c:a"@, sound.0)
            &&& !keeps_sound_whole(preset) ==> says(args, "-b:a"@, decimal(rate) + "k"@)
        }),
{
    let args = preset.output_args(s, macos);
    let sound = sound_encoder(preset, macos);
    let k = sound.1;
    assert(args[k] == "-c:a"@ && args[k + 1] == sound.0);
    if picture_encoder(preset, macos) is Some {
        let i = 0int;
        assert(args[i] == "-c:v"@ && args[i + 1] == picture_encoder(preset, macos)->0);
    }
    if !keeps_sound_whole(preset) {
        let m = k + 2;
        assert(args[m] == "-b:a"@ && args[m + 1] == s.audio_rate());
    }
}

/// Whether a format keeps sound without loss.
pub open spec fn keeps_sound_whole(preset: ExportPreset) -> bool {
    preset is Flac || preset is WavPcm || preset is DnxhrHqMov || preset is ProRes422Mov || preset is ProRes422HqMov
        || preset is ProRes444Mov || preset is ProRes4444Mov
}

} // verus!
