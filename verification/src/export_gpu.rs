//! Exports through the graphics processor: which pieces are read, how frames are laid
//! over each other, and the commands that read and write them.
use crate::clip::{Clip, ClipView};
use crate::copying::views;
use crate::export_clip::time_sum;
use crate::double::{count_pictures, pictures_in, real_seconds, seconds_of_length};
use crate::export_errors::ExportError;
use crate::export_settings::{
    push_all, ExportRange, ExportSettings, ExportSettingsView, SHORTEST_EXPORT,
};
use crate::filter_words::{fixed, fixed_text};
use crate::media_paths::{is_image_ext, picture_name};
use crate::text::{decimal, decimal_text, owned};
use crate::time::{greatest, least, monus, Duration};
use crate::tracks::{VideoTrack, VideoTrackView};
use vstd::prelude::*;

verus! {

broadcast use crate::copying::group_views;

// ---------------------------------------------------------------------------
// One clip
// ---------------------------------------------------------------------------

/// The part of a clip that is exported.
#[derive(Debug, Clone, Copy, PartialEq, Eq, Structural)]
pub enum ClipPart {
    /// The range is not within the clip.
    Outside,
    TooShort,
    Part { local_start: Duration, duration: Duration },
}

/// The part of a clip that is exported.
pub ghost enum ClipPartView {
    Outside,
    TooShort,
    Part { local_start: int, duration: int },
}

impl View for ClipPart {
    type V = ClipPartView;

    open spec fn view(&self) -> ClipPartView {
        match *self {
            ClipPart::Outside => ClipPartView::Outside,
            ClipPart::TooShort => ClipPartView::TooShort,
            ClipPart::Part { local_start, duration } => ClipPartView::Part {
                local_start: local_start@,
                duration: duration@,
            },
        }
    }
}

/// The part of a clip that is exported: all of it without a range.
#[verifier::opaque]
pub open spec fn part_of(c: ClipView, range: Option<ExportRange>) -> ClipPartView {
    match range {
        Some(r) => if r.start@ < c.start || r.end@ > time_sum(c.start, c.duration) {
            ClipPartView::Outside
        } else if monus(r.end@, r.start@) <= SHORTEST_EXPORT {
            ClipPartView::TooShort
        } else {
            ClipPartView::Part {
                local_start: monus(r.start@, c.start),
                duration: monus(r.end@, r.start@),
            }
        },
        None => if c.duration <= SHORTEST_EXPORT {
            ClipPartView::TooShort
        } else {
            ClipPartView::Part { local_start: 0, duration: c.duration }
        },
    }
}

/// The part of a clip that is exported.
pub fn find_part(c: &Clip, range: Option<ExportRange>) -> (part: ClipPart)
    ensures
        part@ == part_of(c@, range),
{
    reveal(part_of);
    match range {
        Some(r) => {
            let end = c.start.saturating_add(c.duration);
            if r.start.nanos < c.start.nanos || r.end.nanos > end.nanos {
                ClipPart::Outside
            } else if r.duration().nanos <= SHORTEST_EXPORT {
                ClipPart::TooShort
            } else {
                ClipPart::Part {
                    local_start: r.start.saturating_sub(c.start),
                    duration: r.duration(),
                }
            }
        },
        None => if c.duration.nanos <= SHORTEST_EXPORT {
            ClipPart::TooShort
        } else {
            ClipPart::Part { local_start: Duration::zero(), duration: c.duration }
        },
    }
}

/// A part lies within the clip and is longer than the shortest export.
pub proof fn part_is_within(c: ClipView, range: Option<ExportRange>)
    requires
        0 <= c.start,
        0 <= c.duration,
    ensures
        part_of(c, range) matches ClipPartView::Part { local_start, duration } ==> 0 <= local_start
            && local_start + duration <= c.duration && duration > SHORTEST_EXPORT,
{
    reveal(part_of);
}

/// A picture in the middle of the canvas.
pub open spec fn decode_filter(fps: Seq<char>, w: Seq<char>, h: Seq<char>, color: Seq<char>) -> Seq<char> {
    "fps="@
        + fps
        + ",setsar=1,scale=w="@
        + w
        + ":h="@
        + h
        + ":force_original_aspect_ratio=decrease:eval=frame,pad="@
        + w
        + ":"@
        + h
        + ":(ow-iw)/2:(oh-ih)/2:"@
        + color
        + ",format=rgba"@
}

pub fn decode_filter_text(fps: &str, w: &str, h: &str, color: &str) -> (text: String)
    ensures
        text@ == decode_filter(fps@, w@, h@, color@),
{
    let mut text = owned("fps=");
    text.append(fps);
    text.append(",setsar=1,scale=w=");
    text.append(w);
    text.append(":h=");
    text.append(h);
    text.append(":force_original_aspect_ratio=decrease:eval=frame,pad=");
    text.append(w);
    text.append(":");
    text.append(h);
    text.append(":(ow-iw)/2:(oh-ih)/2:");
    text.append(color);
    text.append(",format=rgba");
    text
}

/// A size.
pub open spec fn frame_size(w: Seq<char>, h: Seq<char>) -> Seq<char> {
    w
        + "x"@
        + h
}

pub fn frame_size_text(w: &str, h: &str) -> (text: String)
    ensures
        text@ == frame_size(w@, h@),
{
    let mut text = owned(w);
    text.append("x");
    text.append(h);
    text
}

/// The options by which the pictures of one clip are read.
#[verifier::opaque]
pub open spec fn single_decode_args(
    path: Seq<char>,
    source_start: int,
    duration: int,
    w: int,
    h: int,
    fps: int,
) -> Seq<Seq<char>> {
    seq![
        "-hide_banner"@,
        "-nostats"@,
        "-loglevel"@,
        "error"@,
        "-ss"@,
        fixed(source_start),
        "-t"@,
        fixed(duration),
        "-i"@,
        path,
        "-an"@,
        "-vf"@,
        decode_filter(decimal(fps), decimal(w), decimal(h), "black"@),
        "-pix_fmt"@,
        "rgba"@,
        "-f"@,
        "rawvideo"@,
        "pipe:1"@,
    ]
}

fn build_single_decode_args(
    path: &str,
    source_start: Duration,
    duration: Duration,
    w: u32,
    h: u32,
    fps: u32,
) -> (args: Vec<String>)
    ensures
        views(args@) == single_decode_args(
            path@,
            source_start@,
            duration@,
            w as int,
            h as int,
            fps as int,
        ),
{
    reveal(single_decode_args);
    reveal(views);
    let start_text = fixed_text(source_start);
    let length_text = fixed_text(duration);
    let filter = decode_filter_text(
        decimal_text(fps as u64).as_str(),
        decimal_text(w as u64).as_str(),
        decimal_text(h as u64).as_str(),
        "black",
    );
    let mut args: Vec<String> = Vec::new();
    let list = [
        "-hide_banner",
        "-nostats",
        "-loglevel",
        "error",
        "-ss",
        start_text.as_str(),
        "-t",
        length_text.as_str(),
        "-i",
        path,
        "-an",
        "-vf",
        filter.as_str(),
        "-pix_fmt",
        "rgba",
        "-f",
        "rawvideo",
        "pipe:1",
    ];
    push_all(&mut args, &list);
    assert(views(list@) =~= seq![
        "-hide_banner"@,
        "-nostats"@,
        "-loglevel"@,
        "error"@,
        "-ss"@,
        start_text@,
        "-t"@,
        length_text@,
        "-i"@,
        path@,
        "-an"@,
        "-vf"@,
        filter@,
        "-pix_fmt"@,
        "rgba"@,
        "-f"@,
        "rawvideo"@,
        "pipe:1"@,
    ]);
    assert(views(args@) =~= views(list@));
    args
}

/// The options by which pictures are written together with the sound of a file.
#[verifier::opaque]
pub open spec fn encode_args(
    path: Seq<char>,
    source_start: int,
    duration: int,
    w: int,
    h: int,
    s: ExportSettingsView,
    out_path: Seq<char>,
) -> Seq<Seq<char>> {
    seq![
        "-y"@,
        "-hide_banner"@,
        "-f"@,
        "rawvideo"@,
        "-pix_fmt"@,
        "rgba"@,
        "-s:v"@,
        frame_size(decimal(w), decimal(h)),
        "-r"@,
        decimal(s.rate()),
        "-i"@,
        "pipe:0"@,
        "-ss"@,
        fixed(source_start),
        "-t"@,
        fixed(duration),
        "-i"@,
        path,
        "-map"@,
        "0:v:0"@,
        "-map"@,
        "1:a?"@,
        "-c:v"@,
        "h264_videotoolbox"@,
        "-allow_sw"@,
        "0"@,
        "-pix_fmt"@,
        "yuv420p"@,
        "-b:v"@,
        "12M"@,
        "-maxrate"@,
        "16M"@,
        "-bufsize"@,
        "24M"@,
        "-c:a"@,
        "aac"@,
        "-b:a"@,
        s.audio_rate(),
        "-nostats"@,
        "-loglevel"@,
        "error"@,
        out_path,
    ]
}

fn build_encode_args(
    path: &str,
    source_start: Duration,
    duration: Duration,
    w: u32,
    h: u32,
    settings: &ExportSettings,
    out_path: &str,
) -> (args: Vec<String>)
    ensures
        views(args@) == encode_args(
            path@,
            source_start@,
            duration@,
            w as int,
            h as int,
            settings@,
            out_path@,
        ),
{
    reveal(encode_args);
    reveal(views);
    let size = frame_size_text(
        decimal_text(w as u64).as_str(),
        decimal_text(h as u64).as_str(),
    );
    let fps = decimal_text(settings.normalized_fps() as u64);
    let start_text = fixed_text(source_start);
    let length_text = fixed_text(duration);
    let rate = settings.audio_rate_text();
    let mut args: Vec<String> = Vec::new();
    let list = [
        "-y",
        "-hide_banner",
        "-f",
        "rawvideo",
        "-pix_fmt",
        "rgba",
        "-s:v",
        size.as_str(),
        "-r",
        fps.as_str(),
        "-i",
        "pipe:0",
        "-ss",
        start_text.as_str(),
        "-t",
        length_text.as_str(),
        "-i",
        path,
        "-map",
        "0:v:0",
        "-map",
        "1:a?",
        "-c:v",
        "h264_videotoolbox",
        "-allow_sw",
        "0",
        "-pix_fmt",
        "yuv420p",
        "-b:v",
        "12M",
        "-maxrate",
        "16M",
        "-bufsize",
        "24M",
        "-c:a",
        "aac",
        "-b:a",
        rate.as_str(),
        "-nostats",
        "-loglevel",
        "error",
        out_path,
    ];
    push_all(&mut args, &list);
    assert(views(list@) =~= seq![
        "-y"@,
        "-hide_banner"@,
        "-f"@,
        "rawvideo"@,
        "-pix_fmt"@,
        "rgba"@,
        "-s:v"@,
        size@,
        "-r"@,
        fps@,
        "-i"@,
        "pipe:0"@,
        "-ss"@,
        start_text@,
        "-t"@,
        length_text@,
        "-i"@,
        path@,
        "-map"@,
        "0:v:0"@,
        "-map"@,
        "1:a?"@,
        "-c:v"@,
        "h264_videotoolbox"@,
        "-allow_sw"@,
        "0"@,
        "-pix_fmt"@,
        "yuv420p"@,
        "-b:v"@,
        "12M"@,
        "-maxrate"@,
        "16M"@,
        "-bufsize"@,
        "24M"@,
        "-c:a"@,
        "aac"@,
        "-b:a"@,
        rate@,
        "-nostats"@,
        "-loglevel"@,
        "error"@,
        out_path@,
    ]);
    assert(views(args@) =~= views(list@));
    args
}

/// The bytes of a frame with four bytes for each point.
pub open spec fn frame_bytes(w: int, h: int) -> int {
    least(least(w * h, usize::MAX as int) * 4, usize::MAX as int)
}

/// The bytes of a frame with four bytes for each point.
pub fn bytes_of_frame(w: u32, h: u32) -> (n: usize)
    ensures
        n == frame_bytes(w as int, h as int),
{
    assert(0 <= w * h <= 0xffff_ffff * 0xffff_ffff) by (nonlinear_arith)
        requires
            w <= 0xffff_ffff,
            h <= 0xffff_ffff,
    ;
    let points: u128 = (w as u128) * (h as u128);
    let most: u128 = usize::MAX as u128;
    let kept: u128 = if points <= most {
        points
    } else {
        most
    };
    assert(points == w * h);
    let bytes: u128 = kept * 4;
    if bytes <= most {
        bytes as usize
    } else {
        usize::MAX
    }
}

/// What is done to export one clip: what is read and written, where the part starts in the
/// clip, and how many bytes a frame has.
#[derive(Debug)]
pub struct SingleClipRun {
    pub local_start: Duration,
    pub decode_args: Vec<String>,
    pub encode_args: Vec<String>,
    pub frame_bytes: usize,
    pub fps: u32,
}

/// Plans the export of one clip through the graphics processor.
pub fn plan_single_clip_run(
    clip: &Clip,
    range: Option<ExportRange>,
    w: u32,
    h: u32,
    settings: &ExportSettings,
    out_path: &str,
) -> (run: Result<SingleClipRun, ExportError>)
    ensures
        match part_of(clip@, range) {
            ClipPartView::Outside => is_unavailable(run, "export range falls outside clip"@),
            ClipPartView::TooShort => is_unavailable(run, "effective duration is too short"@),
            ClipPartView::Part { local_start, duration } => run matches Ok(r) && {
                let start = time_sum(clip@.source_in, local_start);
                &&& r.local_start@ == local_start
                &&& views(r.decode_args@) == single_decode_args(
                    clip@.file_path,
                    start,
                    duration,
                    w as int,
                    h as int,
                    settings@.rate(),
                )
                &&& views(r.encode_args@) == encode_args(
                    clip@.file_path,
                    start,
                    duration,
                    w as int,
                    h as int,
                    settings@,
                    out_path@,
                )
                &&& r.frame_bytes == frame_bytes(w as int, h as int)
                &&& r.fps == settings@.rate()
            },
        },
{
    match find_part(clip, range) {
        ClipPart::Outside => Err(
            ExportError::GpuOpacityPathUnavailable {
                reason: owned("export range falls outside clip"),
            },
        ),
        ClipPart::TooShort => Err(
            ExportError::GpuOpacityPathUnavailable {
                reason: owned("effective duration is too short"),
            },
        ),
        ClipPart::Part { local_start, duration } => {
            let start = clip.source_in.saturating_add(local_start);
            let fps = settings.normalized_fps();
            Ok(
                SingleClipRun {
                    local_start,
                    decode_args: build_single_decode_args(
                        clip.file_path.as_str(),
                        start,
                        duration,
                        w,
                        h,
                        fps,
                    ),
                    encode_args: build_encode_args(
                        clip.file_path.as_str(),
                        start,
                        duration,
                        w,
                        h,
                        settings,
                        out_path,
                    ),
                    frame_bytes: bytes_of_frame(w, h),
                    fps,
                },
            )
        },
    }
}

/// Whether a plan is refused for the reason.
pub open spec fn is_unavailable<T>(r: Result<T, ExportError>, why: Seq<char>) -> bool {
    r matches Err(ExportError::GpuOpacityPathUnavailable { reason }) && reason@ == why
}

// ---------------------------------------------------------------------------
// Frames
// ---------------------------------------------------------------------------

/// When a frame is shown, to the nearest nanosecond.
pub open spec fn frame_time(frame: int, fps: int) -> int {
    (2 * frame * 1_000_000_000 + fps) / (2 * fps)
}

/// When a frame is shown, to the nearest nanosecond.
pub fn time_of_frame(frame: u64, fps: u32) -> (d: Duration)
    requires
        fps > 0,
    ensures
        d@ == frame_time(frame as int, fps as int),
{
    assert(2 * (frame as int) * 1_000_000_000 + fps <= u128::MAX) by (nonlinear_arith)
        requires
            frame <= u64::MAX,
            fps <= u32::MAX,
    ;
    let n: u128 = 2 * (frame as u128) * 1_000_000_000 + (fps as u128);
    Duration { nanos: n / (2 * (fps as u128)) }
}

/// How many frames a length has, at least one and at most as many as can be counted. The length
/// in seconds is a double-precision number, and so is its product with the rate, which is rounded
/// up.
pub open spec fn frame_count(length: int, fps: int) -> int {
    pictures_in(real_seconds(length), fps)
}

/// How many frames a length has, at least one and at most as many as can be counted.
pub fn count_frames(length: Duration, fps: u32) -> (n: u64)
    ensures
        n == frame_count(length@, fps as int),
{
    count_pictures(seconds_of_length(length), fps)
}

/// Frames are shown one after the other, the first at the start.
pub proof fn frames_go_on(frame: int, fps: int)
    requires
        0 <= frame,
        0 < fps <= 1_000_000_000,
    ensures
        frame_time(0, fps) == 0,
        frame_time(frame, fps) < frame_time(frame + 1, fps),
{
    let a = 2 * frame * 1_000_000_000 + fps;
    let b = 2 * (frame + 1) * 1_000_000_000 + fps;
    assert(b - a == 2_000_000_000);
    assert(b - a >= 2 * fps);
    assert(b / (2 * fps) >= a / (2 * fps) + 1) by (nonlinear_arith)
        requires
            b - a >= 2 * fps,
            fps > 0,
    ;
    assert(fps / (2 * fps) == 0) by (nonlinear_arith)
        requires
            fps > 0,
    ;
}

/// Whether the frame with the index is one that is reported, and how far the export is
/// then.
pub fn progress_at_frame(frame: u64, fps: u32, total: Duration) -> (rendered: Option<Duration>)
    requires
        fps > 0,
    ensures
        match rendered {
            Some(d) => frame % 8 == 0 && d@ == least(
                frame_time(frame as int, fps as int),
                total@,
            ),
            None => frame % 8 != 0,
        },
{
    if frame % 8 == 0 {
        Some(time_of_frame(frame, fps).min(total))
    } else {
        None
    }
}

// ---------------------------------------------------------------------------
// Several tracks
// ---------------------------------------------------------------------------

/// A clip that is exported with others: the main one or that of a track above it, when it is
/// shown, and where its file is read from.
#[derive(Debug, Clone, Copy, PartialEq, Eq, Structural)]
pub struct TrackClipSpec {
    /// The track above the main one that it is on.
    pub track: Option<usize>,
    pub active_start: Duration,
    pub active_end: Duration,
    pub source_start: Duration,
}

/// A clip that is exported with others.
pub ghost struct TrackClipView {
    pub track: Option<int>,
    pub active_start: int,
    pub active_end: int,
    pub source_start: int,
}

impl View for TrackClipSpec {
    type V = TrackClipView;

    open spec fn view(&self) -> TrackClipView {
        TrackClipView {
            track: match self.track {
                Some(i) => Some(i as int),
                None => None,
            },
            active_start: self.active_start@,
            active_end: self.active_end@,
            source_start: self.source_start@,
        }
    }
}

/// When a clip is shown within the export; nothing where that is too short.
pub open spec fn shown_within(c: ClipView, start: int, end: int, track: Option<int>) -> Option<
    TrackClipView,
> {
    let from = greatest(start, c.start);
    let to = least(end, time_sum(c.start, c.duration));
    if to <= from + SHORTEST_EXPORT {
        None
    } else {
        Some(
            TrackClipView {
                track,
                active_start: from,
                active_end: to,
                source_start: time_sum(c.source_in, monus(from, c.start)),
            },
        )
    }
}

fn find_shown(c: &Clip, start: Duration, end: Duration, track: Option<usize>) -> (shown: Option<
    TrackClipSpec,
>)
    ensures
        match (
            shown,
            shown_within(
                c@,
                start@,
                end@,
                match track {
                    Some(i) => Some(i as int),
                    None => None,
                },
            ),
        ) {
            (Some(s), Some(v)) => s@ == v,
            (None, None) => true,
            _ => false,
        },
{
    let from = start.max(c.start);
    let to = end.min(c.start.saturating_add(c.duration));
    if to.nanos <= from.nanos.saturating_add(SHORTEST_EXPORT) {
        None
    } else {
        Some(
            TrackClipSpec {
                track,
                active_start: from,
                active_end: to,
                source_start: c.source_in.saturating_add(from.saturating_sub(c.start)),
            },
        )
    }
}

/// The clips of the first `n` tracks above the main one that are shown: the first of each
/// track.
pub open spec fn overlays_shown(
    tracks: Seq<VideoTrackView>,
    start: int,
    end: int,
    n: int,
    main: TrackClipView,
) -> Seq<TrackClipView>
    decreases n,
{
    if n <= 0 {
        seq![main]
    } else {
        let before = overlays_shown(tracks, start, end, n - 1, main);
        if tracks[n - 1].clips.len() == 0 {
            before
        } else {
            match shown_within(tracks[n - 1].clips[0], start, end, Some(n - 1)) {
                Some(s) => before.push(s),
                None => before,
            }
        }
    }
}

/// What is exported of several tracks, or why it cannot be.
pub open spec fn tracks_shown(v1: ClipView, tracks: Seq<VideoTrackView>, start: int, end: int) -> Result<
    Seq<TrackClipView>,
    Seq<char>,
> {
    if end <= start + SHORTEST_EXPORT {
        Err("effective duration is too short"@)
    } else {
        match shown_within(v1, start, end, None) {
            None => Err("V1 clip does not intersect export range"@),
            Some(main) => Ok(overlays_shown(tracks, start, end, tracks.len() as int, main)),
        }
    }
}

/// The start and the end of what is exported.
pub open spec fn export_bounds(range: Option<ExportRange>, total: int) -> (int, int) {
    match range {
        Some(r) => (r.start@, r.end@),
        None => (0, total),
    }
}

/// What is done to export several tracks.
#[derive(Debug)]
pub struct MultitrackRun {
    pub export_start: Duration,
    pub clips: Vec<TrackClipSpec>,
    pub encode_args: Vec<String>,
    pub frame_bytes: usize,
    pub fps: u32,
}

fn show_overlays(
    tracks: &Vec<VideoTrack>,
    start: Duration,
    end: Duration,
    main: TrackClipSpec,
) -> (clips: Vec<TrackClipSpec>)
    ensures
        views(clips@) == overlays_shown(
            views(tracks@),
            start@,
            end@,
            tracks.len() as int,
            main@,
        ),
{
    reveal(views);
    let mut clips: Vec<TrackClipSpec> = Vec::new();
    clips.push(main);
    assert(views(clips@) =~= seq![main@]);
    let mut i: usize = 0;
    while i < tracks.len()
        invariant
            i <= tracks.len(),
            views(clips@) == overlays_shown(views(tracks@), start@, end@, i as int, main@),
        decreases tracks.len() - i,
    {
        reveal(views);
        if tracks[i].clips.len() > 0 {
            let ghost before = clips@;
            if let Some(s) = find_shown(&tracks[i].clips[0], start, end, Some(i)) {
                clips.push(s);
                assert(views(clips@) =~= views(before).push(s@));
            }
        }
        i += 1;
    }
    clips
}

/// Plans the export of several tracks through the graphics processor.
pub fn plan_multitrack_run(
    v1: &Clip,
    tracks: &Vec<VideoTrack>,
    range: Option<ExportRange>,
    total: Duration,
    w: u32,
    h: u32,
    settings: &ExportSettings,
    out_path: &str,
) -> (run: Result<MultitrackRun, ExportError>)
    ensures
        ({
            let (start, end) = export_bounds(range, total@);
            match tracks_shown(v1@, views(tracks@), start, end) {
                Err(why) => is_unavailable(run, why),
                Ok(shown) => run matches Ok(r) && {
                    &&& r.export_start@ == start
                    &&& views(r.clips@) == shown
                    &&& views(r.encode_args@) == encode_args(
                        v1@.file_path,
                        start,
                        total@,
                        w as int,
                        h as int,
                        settings@,
                        out_path@,
                    )
                    &&& r.frame_bytes == frame_bytes(w as int, h as int)
                    &&& r.fps == settings@.rate()
                },
            }
        }),
{
    let start = match range {
        Some(r) => r.start,
        None => Duration::zero(),
    };
    let end = match range {
        Some(r) => r.end,
        None => total,
    };
    if end.nanos <= start.nanos.saturating_add(SHORTEST_EXPORT) {
        return Err(
            ExportError::GpuOpacityPathUnavailable {
                reason: owned("effective duration is too short"),
            },
        );
    }
    let main = match find_shown(v1, start, end, None) {
        Some(main) => main,
        None => {
            return Err(
                ExportError::GpuOpacityPathUnavailable {
                    reason: owned("V1 clip does not intersect export range"),
                },
            );
        },
    };
    Ok(
        MultitrackRun {
            export_start: start,
            clips: show_overlays(tracks, start, end, main),
            encode_args: build_encode_args(
                v1.file_path.as_str(),
                start,
                total,
                w,
                h,
                settings,
                out_path,
            ),
            frame_bytes: bytes_of_frame(w, h),
            fps: settings.normalized_fps(),
        },
    )
}

/// The options by which the pictures of a clip among others are read.
#[verifier::opaque]
pub open spec fn clip_decode_args(
    c: ClipView,
    source_start: int,
    duration: int,
    w: int,
    h: int,
    fps: int,
) -> Seq<Seq<char>> {
    let front = seq!["-hide_banner"@, "-nostats"@, "-loglevel"@, "error"@];
    let input = if picture_name(c.file_path) {
        seq![
            "-loop"@,
            "1"@,
            "-framerate"@,
            decimal(fps),
            "-t"@,
            fixed(duration),
            "-i"@,
            c.file_path,
        ]
    } else {
        seq!["-ss"@, fixed(source_start), "-t"@, fixed(duration), "-i"@, c.file_path]
    };
    front + input + seq![
        "-an"@,
        "-vf"@,
        decode_filter(decimal(fps), decimal(w), decimal(h), "color=black@0"@),
        "-pix_fmt"@,
        "rgba"@,
        "-f"@,
        "rawvideo"@,
        "pipe:1"@,
    ]
}

/// The options by which the pictures of a clip among others are read.
pub fn build_clip_decode_rgba_args(
    c: &Clip,
    source_start: Duration,
    duration: Duration,
    w: u32,
    h: u32,
    fps: u32,
) -> (args: Vec<String>)
    ensures
        views(args@) == clip_decode_args(
            c@,
            source_start@,
            duration@,
            w as int,
            h as int,
            fps as int,
        ),
{
    reveal(clip_decode_args);
    reveal(views);
    let fps_text = decimal_text(fps as u64);
    let length_text = fixed_text(duration);
    let mut args: Vec<String> = Vec::new();
    let front = ["-hide_banner", "-nostats", "-loglevel", "error"];
    push_all(&mut args, &front);
    assert(views(front@) =~= seq!["-hide_banner"@, "-nostats"@, "-loglevel"@, "error"@]);
    assert(views(args@) =~= views(front@));
    if is_image_ext(c.file_path.as_str()) {
        let list = [
            "-loop",
            "1",
            "-framerate",
            fps_text.as_str(),
            "-t",
            length_text.as_str(),
            "-i",
            c.file_path.as_str(),
        ];
        push_all(&mut args, &list);
        assert(views(list@) =~= seq![
            "-loop"@,
            "1"@,
            "-framerate"@,
            fps_text@,
            "-t"@,
            length_text@,
            "-i"@,
            c.file_path@,
        ]);
    } else {
        let start_text = fixed_text(source_start);
        let list = [
            "-ss",
            start_text.as_str(),
            "-t",
            length_text.as_str(),
            "-i",
            c.file_path.as_str(),
        ];
        push_all(&mut args, &list);
        assert(views(list@) =~= seq![
            "-ss"@,
            start_text@,
            "-t"@,
            length_text@,
            "-i"@,
            c.file_path@,
        ]);
    }
    let filter = decode_filter_text(
        fps_text.as_str(),
        decimal_text(w as u64).as_str(),
        decimal_text(h as u64).as_str(),
        "color=black@0",
    );
    let list = [
        "-an",
        "-vf",
        filter.as_str(),
        "-pix_fmt",
        "rgba",
        "-f",
        "rawvideo",
        "pipe:1",
    ];
    push_all(&mut args, &list);
    assert(views(list@) =~= seq![
        "-an"@,
        "-vf"@,
        filter@,
        "-pix_fmt"@,
        "rgba"@,
        "-f"@,
        "rawvideo"@,
        "pipe:1"@,
    ]);
    args
}

/// What is done with a clip for a frame.
#[derive(Debug, Clone, Copy, PartialEq, Eq, Structural)]
pub enum LayerStep {
    /// It is not shown.
    Skip,
    /// It is not shown any more: stop reading it.
    Stop,
    /// It is shown for the first time: start reading it.
    Start,
    /// It is shown.
    Read,
}

/// What is done with a clip at the time `t`.
pub fn layer_step(spec: TrackClipSpec, t: Duration, started: bool, ended: bool) -> (step: LayerStep)
    ensures
        step == if spec.active_start@ <= t@ && t@ < spec.active_end@ {
            if started {
                LayerStep::Read
            } else {
                LayerStep::Start
            }
        } else if t@ >= spec.active_end@ && !ended {
            LayerStep::Stop
        } else {
            LayerStep::Skip
        },
{
    if t.nanos < spec.active_start.nanos || t.nanos >= spec.active_end.nanos {
        if t.nanos >= spec.active_end.nanos && !ended {
            LayerStep::Stop
        } else {
            LayerStep::Skip
        }
    } else if started {
        LayerStep::Read
    } else {
        LayerStep::Start
    }
}

// ---------------------------------------------------------------------------
// Points over points
// ---------------------------------------------------------------------------

/// A channel of a point under one with the transparency `a`.
pub open spec fn mixed(above: int, below: int, a: int) -> int {
    (above * a + below * (255 - a) + 127) / 255
}

/// The transparency of a point under one with the transparency `a`.
pub open spec fn mixed_alpha(a: int, below: int) -> int {
    least(a + (below * (255 - a) + 127) / 255, 255)
}

/// The byte at an index of a picture under another: four bytes for each point, of which
/// the last is the transparency. Bytes behind the last whole point stay.
pub open spec fn blended_byte(dst: Seq<u8>, src: Seq<u8>, i: int) -> int {
    let a = src[i / 4 * 4 + 3] as int;
    if i >= dst.len() / 4 * 4 || a == 0 {
        dst[i] as int
    } else if i % 4 == 3 {
        mixed_alpha(a, dst[i] as int)
    } else {
        mixed(src[i] as int, dst[i] as int, a)
    }
}

/// A mixed channel lies between the two, and is one of them where the upper point is
/// fully there or not at all.
pub proof fn mixing_is_between(above: int, below: int, a: int)
    requires
        0 <= above <= 255,
        0 <= below <= 255,
        0 <= a <= 255,
    ensures
        mixed(above, below, 255) == above,
        mixed(above, below, 0) == below,
        0 <= mixed(above, below, a) <= 255,
        least(above, below) <= mixed(above, below, a) <= greatest(above, below),
{
    assert(above * 255 + below * (255 - 255) + 127 == above * 255 + 127) by (nonlinear_arith);
    assert(above * 0 + below * (255 - 0) + 127 == below * 255 + 127) by (nonlinear_arith);
    let low = least(above, below);
    let high = greatest(above, below);
    assert(above * a + below * (255 - a) <= 255 * high) by (nonlinear_arith)
        requires
            above <= high,
            below <= high,
            0 <= a <= 255,
    ;
    assert(above * a + below * (255 - a) >= 255 * low) by (nonlinear_arith)
        requires
            above >= low,
            below >= low,
            0 <= a <= 255,
    ;
}

proof fn lemma_mixed_alpha(a: int, below: int)
    requires
        0 <= a <= 255,
        0 <= below <= 255,
    ensures
        0 <= below * (255 - a) + 127 <= 66_000,
        0 <= mixed_alpha(a, below) <= 255,
{
    assert(0 <= below * (255 - a) <= 255 * 255) by (nonlinear_arith)
        requires
            0 <= a <= 255,
            0 <= below <= 255,
    ;
}

fn mix_channel(above: u8, below: u8, a: u8) -> (m: u8)
    ensures
        m == mixed(above as int, below as int, a as int),
{
    proof {
        mixing_is_between(above as int, below as int, a as int);
        assert(0 <= above * a <= 255 * 255) by (nonlinear_arith)
            requires
                above <= 255,
                a <= 255,
        ;
        assert(0 <= below * (255 - a) <= 255 * 255) by (nonlinear_arith)
            requires
                below <= 255,
                a <= 255,
        ;
    }
    let rest: u32 = 255 - (a as u32);
    let sum: u32 = (above as u32) * (a as u32) + (below as u32) * rest + 127;
    (sum / 255) as u8
}

fn mix_alpha(a: u8, below: u8) -> (m: u8)
    ensures
        m == mixed_alpha(a as int, below as int),
{
    proof {
        lemma_mixed_alpha(a as int, below as int);
    }
    let rest: u32 = 255 - (a as u32);
    let sum: u32 = (a as u32) + ((below as u32) * rest + 127) / 255;
    if sum > 255 {
        255
    } else {
        sum as u8
    }
}

/// Lays a picture over another.
pub fn alpha_over_rgba(dst: &mut Vec<u8>, src: &Vec<u8>)
    requires
        old(dst).len() / 4 * 4 <= src.len(),
    ensures
        final(dst).len() == old(dst).len(),
        forall|i: int|
            0 <= i < final(dst).len() ==> #[trigger] final(dst)@[i] == blended_byte(
                old(dst)@,
                src@,
                i,
            ),
{
    let ghost before = dst@;
    let points: usize = dst.len() / 4;
    let mut k: usize = 0;
    while k < points
        invariant
            k <= points,
            points == before.len() / 4,
            dst.len() == before.len(),
            before.len() / 4 * 4 <= src.len(),
            forall|i: int|
                0 <= i < 4 * k ==> #[trigger] dst@[i] == blended_byte(before, src@, i),
            forall|i: int| 4 * k <= i < before.len() ==> #[trigger] dst@[i] == before[i],
        decreases points - k,
    {
        let at: usize = k * 4;
        let a: u8 = src[at + 3];
        if a != 0 {
            let r: u8 = mix_channel(src[at], dst[at], a);
            let g: u8 = mix_channel(src[at + 1], dst[at + 1], a);
            let b: u8 = mix_channel(src[at + 2], dst[at + 2], a);
            let o: u8 = mix_alpha(a, dst[at + 3]);
            dst.set(at, r);
            dst.set(at + 1, g);
            dst.set(at + 2, b);
            dst.set(at + 3, o);
        }
        assert forall|i: int| 0 <= i < 4 * (k + 1) implies #[trigger] dst@[i] == blended_byte(
            before,
            src@,
            i,
        ) by {
            if i >= 4 * k {
                assert(i / 4 == k);
                assert(i / 4 * 4 + 3 == at + 3);
                assert(i == at || i == at + 1 || i == at + 2 || i == at + 3);
            }
        }
        k += 1;
    }
}

/// A picture that is not there at all changes nothing below it.
pub proof fn clear_picture_changes_nothing(dst: Seq<u8>, src: Seq<u8>, i: int)
    requires
        0 <= i < dst.len(),
        dst.len() / 4 * 4 <= src.len(),
        forall|k: int| 0 <= k < src.len() && k % 4 == 3 ==> #[trigger] src[k] == 0,
    ensures
        blended_byte(dst, src, i) == dst[i],
{
    if i < dst.len() / 4 * 4 {
        let k = i / 4 * 4 + 3;
        assert(k % 4 == 3 && k < dst.len() / 4 * 4);
        assert(src[k] == 0);
    }
}

/// A point that is fully there covers the one below it.
pub proof fn full_point_covers(dst: Seq<u8>, src: Seq<u8>, i: int)
    requires
        0 <= i < dst.len() / 4 * 4,
        dst.len() / 4 * 4 <= src.len(),
        src[i / 4 * 4 + 3] == 255,
    ensures
        blended_byte(dst, src, i) == src[i],
{
    mixing_is_between(src[i] as int, dst[i] as int, 255);
    if i % 4 == 3 {
        assert(i / 4 * 4 + 3 == i);
    }
}

} // verus!
