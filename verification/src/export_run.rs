//! How an export goes on: which command is run, what its progress means, and what is
//! tried when it fails.
use crate::clip::{Clip, ClipView};
use crate::clip_effects::EffectKind;
use crate::copying::{optional, views};
use crate::effect::{ONE, ZERO};
use crate::export_checks::{
    has_overlays, has_sounds, has_subtitles, is_default_linked_audio_layout, multitrack_path,
    should_try_true_gpu_multitrack_opacity_path, should_try_true_gpu_single_clip_opacity_path,
    single_clip_path, some_overlays, some_picture, some_picture_changed, some_picture_seen_through,
    some_sounds, some_subtitles, sound_is_of,
};
use crate::export_clip::{time_sum, ExportLook};
use crate::export_effects::{build_opacity_filter, opacity_filter, ClipWordsView, OpacityMode};
use crate::export_errors::ExportError;
use crate::export_gpu::{find_part, is_unavailable, part_of, ClipPart, ClipPartView};
use crate::export_graph::{
    build_ffmpeg_cmd, sound_alone, ContentView, ExportContent,
};
use crate::export_settings::{
    bounded, push_all, ExportMode, ExportPreset, ExportRange, ExportSettings, ExportSettingsView,
    SHORTEST_EXPORT,
};
use crate::filter_words::{fixed, fixed_text};
use crate::layer::{LayerColorBlurEffects, LayerEffectClip, LayerEffectClipView};
use crate::masks::share;
use crate::scalar::Scalar;
use crate::subtitle::{SubtitleClip, SubtitleClipView, SubtitleTrack, SubtitleTrackView};
use crate::paths::{
    extension, file_stem, folder, is_extension, is_file_stem, is_joined, is_parent, join,
    last_name, lemma_name_parts_plain, longer_name_is_another, longer_name_is_elsewhere,
    name_extension, parent, plain_char, plain_name, plain_path, plain_path_is_folder_and_name,
    stem,
};
use crate::text::{
    chars_of, number, owned, parse_number, text_is, text_of, trim, trimmed,
};
use crate::time::{greatest, least, monus, Duration};
use crate::tracks::{AudioTrack, AudioTrackView, VideoTrack, VideoTrackView};
use vstd::prelude::*;

verus! {

broadcast use crate::copying::group_views;

/// What is exported.
#[derive(Debug)]
pub struct ExportTimeline {
    pub v1: Vec<Clip>,
    pub sounds: Vec<AudioTrack>,
    pub overlays: Vec<VideoTrack>,
    pub subtitles: Vec<SubtitleTrack>,
    pub effects: LayerColorBlurEffects,
    pub layers: Vec<LayerEffectClip>,
}

/// What is exported.
pub ghost struct ExportTimelineView {
    pub v1: Seq<ClipView>,
    pub sounds: Seq<AudioTrackView>,
    pub overlays: Seq<VideoTrackView>,
    pub subtitles: Seq<SubtitleTrackView>,
    pub effects: LayerColorBlurEffects,
    pub layers: Seq<LayerEffectClipView>,
}

impl View for ExportTimeline {
    type V = ExportTimelineView;

    open spec fn view(&self) -> ExportTimelineView {
        ExportTimelineView {
            v1: views(self.v1@),
            sounds: views(self.sounds@),
            overlays: views(self.overlays@),
            subtitles: views(self.subtitles@),
            effects: self.effects,
            layers: views(self.layers@),
        }
    }
}

// ---------------------------------------------------------------------------
// How long it is
// ---------------------------------------------------------------------------

/// The latest end among clips, and a time before.
pub open spec fn latest_clip(clips: Seq<ClipView>, before: int) -> int
    decreases clips.len(),
{
    if clips.len() == 0 {
        before
    } else {
        greatest(
            latest_clip(clips.drop_last(), before),
            time_sum(clips.last().start, clips.last().duration),
        )
    }
}

fn find_latest_clip(clips: &Vec<Clip>, before: Duration) -> (d: Duration)
    ensures
        d@ == latest_clip(views(clips@), before@),
{
    let ghost all = views(clips@);
    let mut d = before;
    let mut i: usize = 0;
    assert(all.take(0) =~= seq![]);
    while i < clips.len()
        invariant
            i <= clips.len(),
            all == views(clips@),
            d@ == latest_clip(all.take(i as int), before@),
        decreases clips.len() - i,
    {
        assert(all.take(i + 1).drop_last() =~= all.take(i as int));
        assert(all.take(i + 1).last() == clips@[i as int]@);
        d = d.max(clips[i].start.saturating_add(clips[i].duration));
        i += 1;
    }
    assert(all.take(i as int) =~= all);
    d
}

/// The latest end among subtitles, and a time before.
pub open spec fn latest_subtitle(clips: Seq<SubtitleClipView>, before: int) -> int
    decreases clips.len(),
{
    if clips.len() == 0 {
        before
    } else {
        greatest(
            latest_subtitle(clips.drop_last(), before),
            time_sum(clips.last().start, clips.last().duration),
        )
    }
}

fn find_latest_subtitle(clips: &Vec<SubtitleClip>, before: Duration) -> (d: Duration)
    ensures
        d@ == latest_subtitle(views(clips@), before@),
{
    let ghost all = views(clips@);
    let mut d = before;
    let mut i: usize = 0;
    assert(all.take(0) =~= seq![]);
    while i < clips.len()
        invariant
            i <= clips.len(),
            all == views(clips@),
            d@ == latest_subtitle(all.take(i as int), before@),
        decreases clips.len() - i,
    {
        assert(all.take(i + 1).drop_last() =~= all.take(i as int));
        assert(all.take(i + 1).last() == clips@[i as int]@);
        d = d.max(clips[i].start.saturating_add(clips[i].duration));
        i += 1;
    }
    assert(all.take(i as int) =~= all);
    d
}

/// The latest end among the rows, and a time before.
pub open spec fn latest_sound(tracks: Seq<AudioTrackView>, before: int) -> int
    decreases tracks.len(),
{
    if tracks.len() == 0 {
        before
    } else {
        latest_clip(tracks.last().clips, latest_sound(tracks.drop_last(), before))
    }
}

fn find_latest_sound(tracks: &Vec<AudioTrack>, before: Duration) -> (d: Duration)
    ensures
        d@ == latest_sound(views(tracks@), before@),
{
    let ghost all = views(tracks@);
    let mut d = before;
    let mut i: usize = 0;
    assert(all.take(0) =~= seq![]);
    while i < tracks.len()
        invariant
            i <= tracks.len(),
            all == views(tracks@),
            d@ == latest_sound(all.take(i as int), before@),
        decreases tracks.len() - i,
    {
        assert(all.take(i + 1).drop_last() =~= all.take(i as int));
        assert(all.take(i + 1).last() == tracks@[i as int]@);
        d = find_latest_clip(&tracks[i].clips, d);
        i += 1;
    }
    assert(all.take(i as int) =~= all);
    d
}

/// The latest end among the rows, and a time before.
pub open spec fn latest_overlay(tracks: Seq<VideoTrackView>, before: int) -> int
    decreases tracks.len(),
{
    if tracks.len() == 0 {
        before
    } else {
        latest_clip(tracks.last().clips, latest_overlay(tracks.drop_last(), before))
    }
}

fn find_latest_overlay(tracks: &Vec<VideoTrack>, before: Duration) -> (d: Duration)
    ensures
        d@ == latest_overlay(views(tracks@), before@),
{
    let ghost all = views(tracks@);
    let mut d = before;
    let mut i: usize = 0;
    assert(all.take(0) =~= seq![]);
    while i < tracks.len()
        invariant
            i <= tracks.len(),
            all == views(tracks@),
            d@ == latest_overlay(all.take(i as int), before@),
        decreases tracks.len() - i,
    {
        assert(all.take(i + 1).drop_last() =~= all.take(i as int));
        assert(all.take(i + 1).last() == tracks@[i as int]@);
        d = find_latest_clip(&tracks[i].clips, d);
        i += 1;
    }
    assert(all.take(i as int) =~= all);
    d
}

/// The latest end among the rows, and a time before.
pub open spec fn latest_subtitle_row(tracks: Seq<SubtitleTrackView>, before: int) -> int
    decreases tracks.len(),
{
    if tracks.len() == 0 {
        before
    } else {
        latest_subtitle(tracks.last().clips, latest_subtitle_row(tracks.drop_last(), before))
    }
}

fn find_latest_subtitle_row(tracks: &Vec<SubtitleTrack>, before: Duration) -> (d: Duration)
    ensures
        d@ == latest_subtitle_row(views(tracks@), before@),
{
    let ghost all = views(tracks@);
    let mut d = before;
    let mut i: usize = 0;
    assert(all.take(0) =~= seq![]);
    while i < tracks.len()
        invariant
            i <= tracks.len(),
            all == views(tracks@),
            d@ == latest_subtitle_row(all.take(i as int), before@),
        decreases tracks.len() - i,
    {
        assert(all.take(i + 1).drop_last() =~= all.take(i as int));
        assert(all.take(i + 1).last() == tracks@[i as int]@);
        d = find_latest_subtitle(&tracks[i].clips, d);
        i += 1;
    }
    assert(all.take(i as int) =~= all);
    d
}

/// The length of an empty timeline, five seconds.
pub const EMPTY_LENGTH: u128 = 5_000_000_000;

/// The length, or that of an empty timeline where there is nothing.
pub open spec fn or_empty(length: int) -> int {
    if length == 0 {
        EMPTY_LENGTH as int
    } else {
        length
    }
}

fn or_empty_length(length: Duration) -> (d: Duration)
    ensures
        d@ == or_empty(length@),
{
    if length.nanos == 0 {
        Duration { nanos: EMPTY_LENGTH }
    } else {
        length
    }
}

impl ExportTimelineView {
    /// Where the last of all clips ends.
    pub open spec fn length(self) -> int {
        or_empty(
            latest_subtitle_row(
                self.subtitles,
                latest_sound(self.sounds, latest_overlay(self.overlays, latest_clip(self.v1, 0))),
            ),
        )
    }

    /// Where the last of the sounds ends.
    pub open spec fn sound_length(self) -> int {
        or_empty(latest_sound(self.sounds, 0))
    }
}

/// Where the last of all clips ends.
pub fn compute_timeline_max(t: &ExportTimeline) -> (d: Duration)
    ensures
        d@ == t@.length(),
{
    let v1 = find_latest_clip(&t.v1, Duration::zero());
    let over = find_latest_overlay(&t.overlays, v1);
    let sound = find_latest_sound(&t.sounds, over);
    or_empty_length(find_latest_subtitle_row(&t.subtitles, sound))
}

/// Where the last of the sounds ends.
pub fn compute_audio_timeline_max(t: &ExportTimeline) -> (d: Duration)
    ensures
        d@ == t@.sound_length(),
{
    or_empty_length(find_latest_sound(&t.sounds, Duration::zero()))
}

proof fn lemma_latest_clip(clips: Seq<ClipView>, before: int, i: int)
    ensures
        before <= latest_clip(clips, before),
        0 <= i < clips.len() ==> time_sum(clips[i].start, clips[i].duration) <= latest_clip(
            clips,
            before,
        ),
    decreases clips.len(),
{
    if clips.len() > 0 {
        lemma_latest_clip(clips.drop_last(), before, i);
        if 0 <= i < clips.len() - 1 {
            assert(clips.drop_last()[i] == clips[i]);
        }
    }
}

proof fn lemma_latest_subtitle(clips: Seq<SubtitleClipView>, before: int)
    ensures
        before <= latest_subtitle(clips, before),
    decreases clips.len(),
{
    if clips.len() > 0 {
        lemma_latest_subtitle(clips.drop_last(), before);
    }
}

proof fn lemma_latest_rows(t: ExportTimelineView, before: int)
    ensures
        before <= latest_overlay(t.overlays, before),
        before <= latest_sound(t.sounds, before),
        before <= latest_subtitle_row(t.subtitles, before),
    decreases t.overlays.len() + t.sounds.len() + t.subtitles.len(),
{
    if t.overlays.len() > 0 {
        lemma_latest_rows(ExportTimelineView { overlays: t.overlays.drop_last(), ..t }, before);
        let so_far = latest_overlay(t.overlays.drop_last(), before);
        lemma_latest_clip(t.overlays.last().clips, so_far, 0);
    }
    if t.sounds.len() > 0 {
        lemma_latest_rows(ExportTimelineView { sounds: t.sounds.drop_last(), ..t }, before);
        let so_far = latest_sound(t.sounds.drop_last(), before);
        lemma_latest_clip(t.sounds.last().clips, so_far, 0);
    }
    if t.subtitles.len() > 0 {
        lemma_latest_rows(ExportTimelineView { subtitles: t.subtitles.drop_last(), ..t }, before);
        let so_far = latest_subtitle_row(t.subtitles.drop_last(), before);
        lemma_latest_subtitle(t.subtitles.last().clips, so_far);
    }
}

/// Every clip of the main track ends within the length, and the length is never nothing.
pub proof fn length_covers_main_track(t: ExportTimelineView, i: int)
    requires
        0 <= i < t.v1.len(),
    ensures
        time_sum(t.v1[i].start, t.v1[i].duration) <= t.length() || t.length() == EMPTY_LENGTH,
        t.length() != 0,
{
    lemma_latest_clip(t.v1, 0, i);
    let a = latest_clip(t.v1, 0);
    lemma_latest_rows(t, a);
    let b = latest_overlay(t.overlays, a);
    lemma_latest_rows(t, b);
    let c = latest_sound(t.sounds, b);
    lemma_latest_rows(t, c);
}

/// How long the export is, at least the shortest.
pub fn progress_total(range: Option<ExportRange>, timeline_max: Duration) -> (d: Duration)
    ensures
        d@ == greatest(
            match range {
                Some(r) => monus(r.end@, r.start@),
                None => timeline_max@,
            },
            SHORTEST_EXPORT as int,
        ),
{
    let length = match range {
        Some(r) => r.duration(),
        None => timeline_max,
    };
    length.max(Duration { nanos: SHORTEST_EXPORT })
}

/// The name of a file that is not finished.
pub open spec fn temp_name(stem: Seq<char>, extension: Seq<char>) -> Seq<char> {
    stem
        + ".anica.tmp."@
        + extension
}

pub fn temp_name_text(stem: &str, extension: &str) -> (text: String)
    ensures
        text@ == temp_name(stem@, extension@),
{
    let mut text = owned(stem);
    text.append(".anica.tmp.");
    text.append(extension);
    text
}

/// The text, or another where it is empty or there is none.
pub open spec fn text_or(text: Option<Seq<char>>, usual: Seq<char>) -> Seq<char> {
    match text {
        Some(t) => if t.len() > 0 {
            t
        } else {
            usual
        },
        None => usual,
    }
}

/// The name of the file that is written until the export is done, from the name of the
/// output and its extension.
pub fn temp_output_name(stem: &Option<String>, extension: &Option<String>) -> (name: String)
    ensures
        name@ == temp_name(
            text_or(optional(*stem), "anica_export"@),
            text_or(optional(*extension), "mp4"@),
        ),
{
    temp_name_text(choose_text(stem, "anica_export"), choose_text(extension, "mp4"))
}

/// Whether a path is that of a name made of a stem and an extension, in a folder, and not the path
/// of the output. Said of names that have no meaning of their own in a path.
pub open spec fn is_temp_path(
    out_path: Seq<char>,
    stem: Option<Seq<char>>,
    extension: Option<Seq<char>>,
    dir: Option<Seq<char>>,
    path: Seq<char>,
) -> bool {
    let name = temp_name(text_or(stem, "anica_export"@), text_or(extension, "mp4"@));
    &&& dir is None ==> path == name
    &&& dir is Some && plain_name(name) ==> is_joined(dir->0, name, path)
    &&& stem is Some && stem->0.len() > 0 && plain_name(name) ==> path != out_path
}

/// The path at which an output is written at first: in the same folder, and never its own. Which
/// folder and which name these are is said of paths by names, which are taken apart in the same way
/// on all machines.
pub fn temp_output_path(out_path: &str) -> (path: String)
    ensures
        plain_path(out_path@) ==> path@ != out_path@ && is_joined(
            folder(out_path@),
            temp_name_of(last_name(out_path@)),
            path@,
        ),
        exists|stem: Option<Seq<char>>, extension: Option<Seq<char>>, dir: Option<Seq<char>>|
            #![trigger is_file_stem(out_path@, stem), is_extension(out_path@, extension), is_parent(out_path@, dir)]
            is_file_stem(out_path@, stem) && is_extension(out_path@, extension) && is_parent(
                out_path@,
                dir,
            ) && is_temp_path(out_path@, stem, extension, dir, path@),
{
    let stem = file_stem(out_path);
    let ext = extension(out_path);
    let dir = parent(out_path);
    let name = temp_output_name(&stem, &ext);
    let path = match &dir {
        Some(dir) => join(dir.as_str(), name.as_str()),
        None => owned(name.as_str()),
    };
    proof {
        lemma_temp_path(out_path@, optional(stem), optional(ext), optional(dir), name@, path@);
        if plain_path(out_path@) {
            plain_path_is_folder_and_name(out_path@);
            lemma_temp_name_plain(last_name(out_path@));
            longer_name_is_elsewhere(out_path@, temp_name_of(last_name(out_path@)), path@);
        }
    }
    path
}

proof fn lemma_temp_path(
    out_path: Seq<char>,
    stem: Option<Seq<char>>,
    ext: Option<Seq<char>>,
    dir: Option<Seq<char>>,
    name: Seq<char>,
    path: Seq<char>,
)
    requires
        is_file_stem(out_path, stem),
        is_extension(out_path, ext),
        name == temp_name(text_or(stem, "anica_export"@), text_or(ext, "mp4"@)),
        dir is None ==> path == name,
        dir is Some && plain_name(name) ==> is_joined(dir->0, name, path),
    ensures
        is_temp_path(out_path, stem, ext, dir, path),
{
    if stem is Some && stem->0.len() > 0 && plain_name(name) {
        reveal_strlit("mp4");
        reveal_strlit(".anica.tmp.");
        reveal_strlit(".anica.tmp");
        let e = text_or(ext, "mp4"@);
        let middle = ".anica.tmp"@;
        assert(".anica.tmp."@ =~= middle + seq!['.']);
        assert(name =~= stem->0 + middle + seq!['.'] + e);
        assert(path.len() >= name.len() && path.skip(path.len() - name.len()) =~= name);
        longer_name_is_another(out_path, stem->0, middle, e, path);
    }
}

/// The name under which an output of a name is written at first.
pub open spec fn temp_name_of(name: Seq<char>) -> Seq<char> {
    temp_name(
        text_or(Some(stem(name)), "anica_export"@),
        text_or(name_extension(name), "mp4"@),
    )
}

proof fn lemma_temp_name_plain(name: Seq<char>)
    requires
        plain_name(name),
    ensures
        plain_name(temp_name_of(name)),
        temp_name_of(name).len() > name.len(),
{
    lemma_name_parts_plain(name);
    reveal_strlit("mp4");
    reveal_strlit(".anica.tmp.");
    assert("mp4"@ =~= seq!['m', 'p', '4']);
    assert(".anica.tmp."@ =~= seq!['.', 'a', 'n', 'i', 'c', 'a', '.', 't', 'm', 'p', '.']);
    let a = stem(name);
    let b = text_or(name_extension(name), "mp4"@);
    let t = temp_name_of(name);
    assert(t =~= a + ".anica.tmp."@ + b);
    assert forall|i: int| 0 <= i < t.len() implies plain_char(#[trigger] t[i]) by {
        if i < a.len() {
            assert(t[i] == a[i]);
        } else if i < a.len() + 11 {
            assert(t[i] == ".anica.tmp."@[i - a.len()]);
        } else {
            assert(t[i] == b[i - a.len() - 11]);
        }
    }
}

fn choose_text<'a>(text: &'a Option<String>, usual: &'a str) -> (t: &'a str)
    ensures
        t@ == text_or(optional(*text), usual@),
{
    match text {
        Some(t) => if t.as_str().unicode_len() > 0 {
            t.as_str()
        } else {
            usual
        },
        None => usual,
    }
}

// ---------------------------------------------------------------------------
// Commands
// ---------------------------------------------------------------------------

/// Whether the timeline is one clip, just as it is. The adjustments for all layers change nothing
/// where there is no layer.
pub open spec fn is_single_copy(t: ExportTimelineView) -> bool {
    &&& t.v1.len() == 1
    &&& !some_sounds(t.sounds)
    &&& !some_overlays(t.overlays)
    &&& !some_subtitles(t.subtitles)
    &&& t.v1[0].start <= SHORTEST_EXPORT
    &&& t.layers.len() == 0
    &&& t.v1[0].is_plain()
}

/// The command that copies a part of a file.
#[verifier::opaque]
pub open spec fn copy_args(path: Seq<char>, start: int, duration: int, out_path: Seq<char>) -> Seq<
    Seq<char>,
> {
    seq![
        "-y"@,
        "-hide_banner"@,
        "-ss"@,
        fixed(start),
        "-t"@,
        fixed(duration),
        "-i"@,
        path,
        "-map"@,
        "0:v:0"@,
        "-map"@,
        "0:a?"@,
        "-c"@,
        "copy"@,
        out_path,
    ]
}

/// The command that copies what is exported, where it is a part of one file as it is.
#[verifier::opaque]
pub open spec fn copy_command(
    t: ExportTimelineView,
    range: Option<ExportRange>,
    out_path: Seq<char>,
) -> Option<Seq<Seq<char>>> {
    if !is_single_copy(t) {
        None
    } else {
        match part_of(t.v1[0], range) {
            ClipPartView::Part { local_start, duration } => Some(
                copy_args(
                    t.v1[0].file_path,
                    time_sum(t.v1[0].source_in, local_start),
                    duration,
                    out_path,
                ),
            ),
            _ => None,
        }
    }
}

/// The command that copies what is exported, where it is a part of one file as it is.
pub fn build_copy_ffmpeg_cmd(t: &ExportTimeline, range: Option<ExportRange>, out_path: &str) -> (args:
    Option<Vec<String>>)
    ensures
        match (args, copy_command(t@, range, out_path@)) {
            (Some(a), Some(c)) => views(a@) == c && a.len() > 0,
            (None, None) => true,
            _ => false,
        },
{
    reveal(copy_command);
    reveal(copy_args);
    reveal(views);
    if t.v1.len() != 1 || has_sounds(&t.sounds) || has_overlays(&t.overlays) || has_subtitles(
        &t.subtitles,
    ) {
        return None;
    }
    let clip = &t.v1[0];
    if clip.start.nanos > SHORTEST_EXPORT || t.layers.len() > 0 || !clip.is_untouched() {
        return None;
    }
    match find_part(clip, range) {
        ClipPart::Part { local_start, duration } => {
            let start_text = fixed_text(clip.source_in.saturating_add(local_start));
            let length_text = fixed_text(duration);
            let mut args: Vec<String> = Vec::new();
            let list = [
                "-y",
                "-hide_banner",
                "-ss",
                start_text.as_str(),
                "-t",
                length_text.as_str(),
                "-i",
                clip.file_path.as_str(),
                "-map",
                "0:v:0",
                "-map",
                "0:a?",
                "-c",
                "copy",
                out_path,
            ];
            push_all(&mut args, &list);
            assert(views(list@) =~= seq![
                "-y"@,
                "-hide_banner"@,
                "-ss"@,
                start_text@,
                "-t"@,
                length_text@,
                "-i"@,
                clip.file_path@,
                "-map"@,
                "0:v:0"@,
                "-map"@,
                "0:a?"@,
                "-c"@,
                "copy"@,
                out_path@,
            ]);
            assert(views(args@) =~= views(list@));
            Some(args)
        },
        _ => None,
    }
}

/// What the encoder of one clip with an opacity is asked for.
#[derive(Debug)]
pub struct SingleClipRequest {
    pub source_start: Duration,
    pub duration: Duration,
    pub fps: u32,
    pub canvas_width: u32,
    pub canvas_height: u32,
    pub opacity: Scalar,
    pub opacity_filter_suffix: String,
    pub audio_bitrate_kbps: u32,
}

/// A command through the graphics processor: that for one clip, which its encoder writes,
/// or one of filters.
#[derive(Debug)]
pub enum GpuCommand {
    SingleClip(SingleClipRequest),
    Filters(Vec<String>),
}

/// Why the whole timeline cannot go through the graphics processor, if it cannot.
pub open spec fn gpu_refusal(t: ExportTimelineView, preset: ExportPreset) -> Option<Seq<char>> {
    if !(preset is H264VideotoolboxMp4) {
        Some("preset is not h264_videotoolbox_mp4"@)
    } else if some_subtitles(t.subtitles) {
        Some("subtitle tracks are present"@)
    } else if !t.effects.changes_nothing() || t.layers.len() > 0 {
        Some("layer effects are active"@)
    } else if t.v1.len() == 0 && !some_overlays(t.overlays) {
        Some("no visual clips found"@)
    } else if some_picture(t.v1, t.overlays, |c: ClipView| !c.only_fades()) {
        Some("at least one clip has non-opacity active effects"@)
    } else if !some_picture(t.v1, t.overlays, |c: ClipView| c.is_seen_through()) {
        Some("all clip opacity values are identity"@)
    } else {
        None
    }
}

fn find_gpu_refusal(t: &ExportTimeline, preset: ExportPreset) -> (why: Option<&'static str>)
    ensures
        match (why, gpu_refusal(t@, preset)) {
            (Some(a), Some(b)) => a@ == b,
            (None, None) => true,
            _ => false,
        },
{
    if !matches!(preset, ExportPreset::H264VideotoolboxMp4) {
        Some("preset is not h264_videotoolbox_mp4")
    } else if has_subtitles(&t.subtitles) {
        Some("subtitle tracks are present")
    } else if !t.effects.is_identity() || t.layers.len() > 0 {
        Some("layer effects are active")
    } else if t.v1.len() == 0 && !has_overlays(&t.overlays) {
        Some("no visual clips found")
    } else if some_picture_changed(&t.v1, &t.overlays) {
        Some("at least one clip has non-opacity active effects")
    } else if !some_picture_seen_through(&t.v1, &t.overlays) {
        Some("all clip opacity values are identity")
    } else {
        None
    }
}

/// Whether the one clip of the main track is all that is seen and heard.
pub open spec fn is_one_clip(t: ExportTimelineView) -> bool {
    t.v1.len() == 1 && !some_overlays(t.overlays) && t.v1[0].start <= SHORTEST_EXPORT
        && sound_is_of(t.sounds, t.v1[0])
}

/// Whether a request is the one for the clip.
pub open spec fn requests(
    r: SingleClipRequest,
    c: ClipView,
    w: ClipWordsView,
    local_start: int,
    duration: int,
    width: int,
    height: int,
    s: ExportSettingsView,
) -> bool {
    &&& r.source_start@ == time_sum(c.source_in, local_start)
    &&& r.duration@ == duration
    &&& r.fps == s.rate()
    &&& r.canvas_width == width
    &&& r.canvas_height == height
    &&& r.opacity == share(c.effect(EffectKind::Opacity)->Opacity_alpha)
    &&& r.opacity_filter_suffix@ == opacity_filter(c, w, OpacityMode::MultiplyRgb, false, None)
    &&& r.audio_bitrate_kbps == bounded(s.audio_bitrate_kbps, 64, 512)
}

fn request_single_clip(
    clip: &Clip,
    words: &crate::export_effects::ClipWords,
    range: Option<ExportRange>,
    look: &ExportLook,
    settings: &ExportSettings,
) -> (r: Result<SingleClipRequest, ExportError>)
    requires
        words@.tells(clip@),
    ensures
        ({
            let filter = opacity_filter(clip@, words@, OpacityMode::MultiplyRgb, false, None);
            if filter.len() == 0 {
                is_unavailable(r, "opacity is identity (after keyframe/layer-factor evaluation)"@)
            } else {
                match part_of(clip@, range) {
                    ClipPartView::Outside => is_unavailable(r, "export range falls outside clip"@),
                    ClipPartView::TooShort => is_unavailable(
                        r,
                        "effective duration is too short"@,
                    ),
                    ClipPartView::Part { local_start, duration } => r matches Ok(q) && requests(
                        q,
                        clip@,
                        words@,
                        local_start,
                        duration,
                        look@.width,
                        look@.height,
                        settings@,
                    ),
                }
            }
        }),
{
    let none: Option<String> = None;
    let filter = build_opacity_filter(clip, words, OpacityMode::MultiplyRgb, false, &none);
    if filter.as_str().unicode_len() == 0 {
        return Err(
            ExportError::GpuOpacityPathUnavailable {
                reason: owned("opacity is identity (after keyframe/layer-factor evaluation)"),
            },
        );
    }
    match find_part(clip, range) {
        ClipPart::Outside => Err(
            ExportError::GpuOpacityPathUnavailable {
                reason: owned("export range falls outside clip"),
            },
        ),
        ClipPart::TooShort => Err(
            ExportError::GpuOpacityPathUnavailable {
                reason: owned("effective duration is too short"),
            },
        ),
        ClipPart::Part { local_start, duration } => Ok(
            SingleClipRequest {
                source_start: clip.source_in.saturating_add(local_start),
                duration,
                fps: settings.normalized_fps(),
                canvas_width: look.width,
                canvas_height: look.height,
                opacity: clip.get_opacity().clamp(Scalar { bits: ZERO }, Scalar { bits: ONE }),
                opacity_filter_suffix: filter,
                audio_bitrate_kbps: settings.normalized_audio_bitrate_kbps(),
            },
        ),
    }
}

/// The command for a timeline of which only opacities are changed, or why there is none.
pub fn build_gpu_effect_opacity_videotoolbox_cmd(
    t: &ExportTimeline,
    content: &ExportContent,
    look: &ExportLook,
    range: Option<ExportRange>,
    preset: ExportPreset,
    settings: &ExportSettings,
    macos: bool,
    out_path: &str,
) -> (command: Result<GpuCommand, ExportError>)
    requires
        content@.countable(),
        content@.told(),
        look@.told(),
        look@.fps == settings@.rate(),
        content.v1.clips.len() == t.v1.len(),
        forall|i: int| 0 <= i < t.v1.len() ==> content@.v1.clips[i].clip == (#[trigger] t@.v1[i]),
    ensures
        gpu_refusal(t@, preset) matches Some(why) ==> is_unavailable(command, why),
        gpu_refusal(t@, preset) is None && !is_one_clip(t@) ==> (command matches Ok(
            GpuCommand::Filters(args),
        ) && views(args@) == content@.command(look@, range, preset, settings@, macos, out_path@)),
        gpu_refusal(t@, preset) is None && is_one_clip(t@) ==> {
            let c = t@.v1[0];
            let w = content@.v1.clips[0].words;
            if opacity_filter(c, w, OpacityMode::MultiplyRgb, false, None).len() == 0 {
                is_unavailable(
                    command,
                    "opacity is identity (after keyframe/layer-factor evaluation)"@,
                )
            } else {
                match part_of(c, range) {
                    ClipPartView::Outside => is_unavailable(
                        command,
                        "export range falls outside clip"@,
                    ),
                    ClipPartView::TooShort => is_unavailable(
                        command,
                        "effective duration is too short"@,
                    ),
                    ClipPartView::Part { local_start, duration } => command matches Ok(
                        GpuCommand::SingleClip(q),
                    ) && requests(
                        q,
                        c,
                        w,
                        local_start,
                        duration,
                        look@.width,
                        look@.height,
                        settings@,
                    ),
                }
            }
        },
{
    if let Some(why) = find_gpu_refusal(t, preset) {
        return Err(ExportError::GpuOpacityPathUnavailable { reason: owned(why) });
    }
    if t.v1.len() == 1 && !has_overlays(&t.overlays) && t.v1[0].start.nanos <= SHORTEST_EXPORT
        && is_default_linked_audio_layout(&t.sounds, &t.v1[0]) {
        return match request_single_clip(
            &t.v1[0],
            &content.v1.clips[0].words,
            range,
            look,
            settings,
        ) {
            Ok(q) => Ok(GpuCommand::SingleClip(q)),
            Err(e) => Err(e),
        };
    }
    Ok(
        GpuCommand::Filters(
            build_ffmpeg_cmd(content, look, range, preset, settings, macos, out_path),
        ),
    )
}

/// The exporter: what it does is decided here and done by the program that calls it.
#[derive(Debug, Clone, Copy)]
pub struct FfmpegExporter;

/// The way through the graphics processor that is tried first.
#[derive(Debug, Clone, Copy, PartialEq, Eq, Structural)]
pub enum GpuPath {
    SingleClip,
    Multitrack,
    Neither,
}

impl FfmpegExporter {
    /// The way through the graphics processor that is tried first. Where only a copy is wanted,
    /// and for sound alone, there is none.
    pub open spec fn way(mode: ExportMode, t: ExportTimelineView, preset: ExportPreset) -> GpuPath {
        if mode == ExportMode::KeepSourceCopy || preset.audio_only() {
            GpuPath::Neither
        } else if single_clip_path(
            t.v1,
            t.sounds,
            t.overlays,
            t.subtitles,
            t.effects,
            t.layers,
            preset,
        ) {
            GpuPath::SingleClip
        } else if multitrack_path(
            t.v1,
            t.sounds,
            t.overlays,
            t.subtitles,
            t.effects,
            t.layers,
            preset,
        ) {
            GpuPath::Multitrack
        } else {
            GpuPath::Neither
        }
    }

    /// The way through the graphics processor that is tried first.
    pub fn gpu_path(mode: ExportMode, t: &ExportTimeline, preset: ExportPreset) -> (path: GpuPath)
        ensures
            path == FfmpegExporter::way(mode, t@, preset),
    {
        if mode == ExportMode::KeepSourceCopy || preset.is_audio_only() {
            GpuPath::Neither
        } else if should_try_true_gpu_single_clip_opacity_path(
            &t.v1,
            &t.sounds,
            &t.overlays,
            &t.subtitles,
            t.effects,
            &t.layers,
            preset,
        ) {
            GpuPath::SingleClip
        } else if should_try_true_gpu_multitrack_opacity_path(
            &t.v1,
            &t.sounds,
            &t.overlays,
            &t.subtitles,
            t.effects,
            &t.layers,
            preset,
        ) {
            GpuPath::Multitrack
        } else {
            GpuPath::Neither
        }
    }
}

/// What is copied is never tried through the graphics processor first, in no mode.
pub proof fn copies_take_no_way(
    mode: ExportMode,
    t: ExportTimelineView,
    preset: ExportPreset,
    range: Option<ExportRange>,
    out_path: Seq<char>,
)
    requires
        copy_command(t, range, out_path) is Some,
    ensures
        FfmpegExporter::way(mode, t, preset) is Neither,
{
    reveal(copy_command);
    reveal(ClipView::is_seen_through);
}

/// The first command of an export.
#[derive(Debug)]
pub enum FirstCommand {
    /// A copy.
    Copy(Vec<String>),
    /// A command through the graphics processor.
    Gpu(GpuCommand),
    /// A command of filters for the sound alone.
    Sound(Vec<String>),
    /// A command of filters, after the subtitles have been drawn.
    Filters,
}

impl FfmpegExporter {
    /// The first command of an export. A copy is tried in the modes that allow it; where only a
    /// copy is wanted and there is none, the export is refused.
    pub fn first_command(
        mode: ExportMode,
        t: &ExportTimeline,
        content: &ExportContent,
        look: &ExportLook,
        range: Option<ExportRange>,
        preset: ExportPreset,
        settings: &ExportSettings,
        macos: bool,
        out_path: &str,
    ) -> (command: Result<FirstCommand, ExportError>)
        requires
            content@.countable(),
            content@.told(),
            look@.told(),
            look@.fps == settings@.rate(),
            content.v1.clips.len() == t.v1.len(),
            forall|i: int|
                0 <= i < t.v1.len() ==> content@.v1.clips[i].clip == (#[trigger] t@.v1[i]),
        ensures
            preset.audio_only() ==> (command matches Ok(FirstCommand::Sound(args)) && views(args@)
                == sound_alone(content@).command(look@, range, preset, settings@, macos, out_path@)),
            !preset.audio_only() && !(mode is PresetReencode) ==> match copy_command(
                t@,
                range,
                out_path@,
            ) {
                Some(c) => command matches Ok(FirstCommand::Copy(args)) && views(args@) == c,
                None => mode is KeepSourceCopy ==> command == Err::<FirstCommand, ExportError>(
                    ExportError::KeepSourceCopyUnavailable,
                ),
            },
            !preset.audio_only() && (mode is PresetReencode || (mode is SmartUniversal && copy_command(
                t@,
                range,
                out_path@,
            ) is None)) ==> {
                &&& gpu_refusal(t@, preset) is Some ==> command == Ok::<FirstCommand, ExportError>(
                    FirstCommand::Filters,
                )
                &&& gpu_refusal(t@, preset) is None && !is_one_clip(t@) ==> (command matches Ok(
                    FirstCommand::Gpu(GpuCommand::Filters(args)),
                ) && views(args@) == content@.command(
                    look@,
                    range,
                    preset,
                    settings@,
                    macos,
                    out_path@,
                ))
                &&& gpu_refusal(t@, preset) is None && is_one_clip(t@) ==> {
                    let c = t@.v1[0];
                    let w = content@.v1.clips[0].words;
                    let filter = opacity_filter(c, w, OpacityMode::MultiplyRgb, false, None);
                    match part_of(c, range) {
                        ClipPartView::Part { local_start, duration } if filter.len() > 0 => command matches Ok(
                            FirstCommand::Gpu(GpuCommand::SingleClip(q)),
                        ) && requests(
                            q,
                            c,
                            w,
                            local_start,
                            duration,
                            look@.width,
                            look@.height,
                            settings@,
                        ),
                        _ => command == Ok::<FirstCommand, ExportError>(FirstCommand::Filters),
                    }
                }
            },
    {
        if preset.is_audio_only() {
            let sound_content = content.sound_only();
            return Ok(
                FirstCommand::Sound(
                    build_ffmpeg_cmd(&sound_content, look, range, preset, settings, macos, out_path),
                ),
            );
        }
        if !matches!(mode, ExportMode::PresetReencode) {
            if let Some(args) = build_copy_ffmpeg_cmd(t, range, out_path) {
                return Ok(FirstCommand::Copy(args));
            }
            if matches!(mode, ExportMode::KeepSourceCopy) {
                return Err(ExportError::KeepSourceCopyUnavailable);
            }
        }
        match build_gpu_effect_opacity_videotoolbox_cmd(
            t,
            content,
            look,
            range,
            preset,
            settings,
            macos,
            out_path,
        ) {
            Ok(command) => Ok(FirstCommand::Gpu(command)),
            Err(_) => Ok(FirstCommand::Filters),
        }
    }
}

/// A command that tells its progress.
pub open spec fn with_progress(args: Seq<Seq<char>>) -> Seq<Seq<char>> {
    args.drop_last() + seq![
        "-nostats"@,
        "-loglevel"@,
        "error"@,
        "-progress"@,
        "pipe:1"@,
        args.last(),
    ]
}

/// Makes a command tell its progress. It is refused where it has no output.
pub fn with_progress_args(args: Vec<String>) -> (out: Result<Vec<String>, ExportError>)
    ensures
        args.len() == 0 ==> out == Err::<Vec<String>, ExportError>(
            ExportError::MissingOutputPathArg,
        ),
        args.len() > 0 ==> (out matches Ok(a) && views(a@) == with_progress(views(args@))),
{
    reveal(views);
    let ghost before = views(args@);
    let mut args = args;
    match args.pop() {
        Some(last) => {
            assert(views(args@) =~= before.drop_last());
            let list = [
                "-nostats",
                "-loglevel",
                "error",
                "-progress",
                "pipe:1",
                last.as_str(),
            ];
            push_all(&mut args, &list);
            assert(views(list@) =~= seq![
                "-nostats"@,
                "-loglevel"@,
                "error"@,
                "-progress"@,
                "pipe:1"@,
                last@,
            ]);
            Ok(args)
        },
        None => Err(ExportError::MissingOutputPathArg),
    }
}

/// The command of filters tells its output last, so it can always be made to tell its
/// progress, and the output stays last.
pub proof fn progress_keeps_output(
    content: ContentView,
    look: crate::export_clip::LookView,
    range: Option<ExportRange>,
    preset: ExportPreset,
    s: ExportSettingsView,
    macos: bool,
    out_path: Seq<char>,
)
    ensures
        ({
            let args = content.command(look, range, preset, s, macos, out_path);
            args.len() > 0 && args.last() == out_path && with_progress(args).last() == out_path
        }),
{
}

// ---------------------------------------------------------------------------
// Progress
// ---------------------------------------------------------------------------

/// What follows a prefix, if the text starts with it.
pub open spec fn after_prefix(text: Seq<char>, prefix: Seq<char>) -> Option<Seq<char>> {
    if prefix.is_prefix_of(text) {
        Some(text.skip(prefix.len() as int))
    } else {
        None
    }
}

/// What follows a prefix, if the text starts with it.
pub fn strip_prefix(text: &str, prefix: &str) -> (rest: Option<String>)
    ensures
        optional(rest) == after_prefix(text@, prefix@),
{
    let t = chars_of(text);
    let p = chars_of(prefix);
    if p.len() > t.len() {
        return None;
    }
    let mut i: usize = 0;
    while i < p.len()
        invariant
            i <= p.len() <= t.len(),
            forall|k: int| 0 <= k < i ==> p@[k] == t@[k],
            t@ == text@,
            p@ == prefix@,
        decreases p.len() - i,
    {
        if p[i] != t[i] {
            assert(!prefix@.is_prefix_of(text@)) by {
                if prefix@.is_prefix_of(text@) {
                    assert(prefix@[i as int] == text@.subrange(0, prefix@.len() as int)[i as int]);
                }
            }
            return None;
        }
        i += 1;
    }
    assert(prefix@ =~= text@.subrange(0, prefix@.len() as int));
    assert(text@.skip(prefix@.len() as int) =~= t@.subrange(p.len() as int, t.len() as int));
    Some(text_of(&t, p.len(), t.len()))
}

/// The text without the letter x at its end.
pub open spec fn without_x(text: Seq<char>) -> Seq<char>
    decreases text.len(),
{
    if text.len() > 0 && text.last() == 'x' {
        without_x(text.drop_last())
    } else {
        text
    }
}

/// The number of a speed, as it is written.
pub fn speed_words(text: &str) -> (words: String)
    ensures
        words@ == without_x(trimmed(text@)),
{
    let t = chars_of(trim(text).as_str());
    let mut n: usize = t.len();
    assert(t@.take(n as int) =~= t@);
    while n > 0 && t[n - 1] == 'x'
        invariant
            n <= t.len(),
            without_x(t@) == without_x(t@.take(n as int)),
        decreases n,
    {
        assert(t@.take(n as int).drop_last() =~= t@.take(n - 1));
        n -= 1;
    }
    assert(n > 0 ==> t@.take(n as int).last() == t@[n - 1]);
    assert(t@.take(n as int) =~= t@.subrange(0, n as int));
    text_of(&t, 0, n)
}

/// What has been told of the progress.
#[derive(Debug)]
pub struct ProgressReader {
    pub rendered: Duration,
    pub speed: Option<String>,
}

/// What has been told of the progress.
pub ghost struct ProgressView {
    pub rendered: int,
    pub speed: Option<Seq<char>>,
}

impl View for ProgressReader {
    type V = ProgressView;

    open spec fn view(&self) -> ProgressView {
        ProgressView { rendered: self.rendered@, speed: optional(self.speed) }
    }
}

/// What a line of the progress means.
#[derive(Debug, Clone, Copy, PartialEq, Eq, Structural)]
pub enum LineStep {
    Nothing,
    /// Tell how far the export is.
    Report,
    /// Tell how far the export is; there will be no more lines.
    ReportEnd,
}

/// The time in millionths of a second, if the text is a number.
pub open spec fn micros(text: Seq<char>) -> Option<int> {
    match number(trimmed(text), u64::MAX as int) {
        Some(n) => Some(n * 1000),
        None => None,
    }
}

impl ProgressView {
    /// What is known after a line. Both fields with a time hold millionths of a second.
    pub open spec fn after_line(self, line: Seq<char>) -> ProgressView {
        let l = trimmed(line);
        let time = match after_prefix(l, "out_time_us="@) {
            Some(v) => Some(v),
            None => after_prefix(l, "out_time_ms="@),
        };
        match time {
            Some(v) => match micros(v) {
                Some(n) => ProgressView { rendered: n, ..self },
                None => self,
            },
            None => match after_prefix(l, "speed="@) {
                Some(v) => ProgressView { speed: Some(without_x(trimmed(v))), ..self },
                None => self,
            },
        }
    }
}

/// What a line means.
pub open spec fn line_step(line: Seq<char>) -> LineStep {
    let l = trimmed(line);
    if after_prefix(l, "out_time_us="@) is Some || after_prefix(l, "out_time_ms="@) is Some
        || after_prefix(l, "speed="@) is Some {
        LineStep::Nothing
    } else {
        match after_prefix(l, "progress="@) {
            Some(v) => if trimmed(v) == "end"@ {
                LineStep::ReportEnd
            } else {
                LineStep::Report
            },
            None => LineStep::Nothing,
        }
    }
}

impl ProgressReader {
    /// Nothing has been told.
    pub fn new() -> (r: ProgressReader)
        ensures
            r@ == (ProgressView { rendered: 0, speed: None }),
    {
        ProgressReader { rendered: Duration::zero(), speed: None }
    }

    fn take_time(&mut self, text: &str)
        ensures
            final(self)@ == match micros(text@) {
                Some(n) => ProgressView { rendered: n, ..old(self)@ },
                None => old(self)@,
            },
    {
        if let Some(n) = parse_number(trim(text).as_str(), u64::MAX) {
            self.rendered = Duration { nanos: (n as u128) * 1000 };
        }
    }

    /// Reads a line of the progress.
    pub fn take_line(&mut self, line: &str) -> (step: LineStep)
        ensures
            final(self)@ == old(self)@.after_line(line@),
            step == line_step(line@),
    {
        let l = trim(line);
        if let Some(v) = strip_prefix(l.as_str(), "out_time_us=") {
            self.take_time(v.as_str());
            return LineStep::Nothing;
        }
        if let Some(v) = strip_prefix(l.as_str(), "out_time_ms=") {
            self.take_time(v.as_str());
            return LineStep::Nothing;
        }
        if let Some(v) = strip_prefix(l.as_str(), "speed=") {
            self.speed = Some(speed_words(v.as_str()));
            return LineStep::Nothing;
        }
        match strip_prefix(l.as_str(), "progress=") {
            Some(v) => if text_is(trim(v.as_str()).as_str(), "end") {
                LineStep::ReportEnd
            } else {
                LineStep::Report
            },
            None => LineStep::Nothing,
        }
    }

    /// How far the export is, never past its end.
    pub fn rendered_of(&self, total: Duration) -> (d: Duration)
        ensures
            d@ == least(self@.rendered, total@),
    {
        self.rendered.min(total)
    }
}

// ---------------------------------------------------------------------------
// Failures
// ---------------------------------------------------------------------------

/// What has been tried.
#[derive(Debug, Clone, Copy, PartialEq, Eq, Structural)]
pub struct ExportAttempt {
    pub preset: ExportPreset,
    pub used_copy: bool,
    pub used_safe_local_mask_fallback: bool,
    pub used_videotoolbox_fallback: bool,
}

/// What is done after a failure.
#[derive(Debug, Clone, Copy, PartialEq, Eq, Structural)]
pub enum AfterFailure {
    /// Run the command of filters for the preset, with or without masks.
    Retry { preset: ExportPreset, without_masks: bool },
    /// Give up.
    Fail,
}

impl ExportAttempt {
    /// The first attempt.
    pub open spec fn first(preset: ExportPreset, used_copy: bool) -> ExportAttempt {
        ExportAttempt {
            preset,
            used_copy,
            used_safe_local_mask_fallback: false,
            used_videotoolbox_fallback: false,
        }
    }

    /// Whether another command can be tried at all: there is none for a copy or for sound
    /// alone.
    pub open spec fn can_render(self) -> bool {
        !self.preset.audio_only() && !self.used_copy
    }

    /// What is done after a failure. The encoder of the machine is given up first, then
    /// masks if the program crashed.
    pub open spec fn next(self, crashed: bool) -> (ExportAttempt, AfterFailure) {
        if !self.used_videotoolbox_fallback && self.preset is H264VideotoolboxMp4
            && self.can_render() {
            (
                ExportAttempt {
                    preset: ExportPreset::H264Mp4,
                    used_videotoolbox_fallback: true,
                    used_safe_local_mask_fallback: false,
                    ..self
                },
                AfterFailure::Retry { preset: ExportPreset::H264Mp4, without_masks: false },
            )
        } else if !self.used_safe_local_mask_fallback && crashed && self.can_render() {
            (
                ExportAttempt { used_safe_local_mask_fallback: true, ..self },
                AfterFailure::Retry { preset: self.preset, without_masks: true },
            )
        } else {
            (self, AfterFailure::Fail)
        }
    }

    /// How many commands can still be tried.
    pub open spec fn tries_left(self) -> int {
        if !self.can_render() {
            0
        } else if !self.used_videotoolbox_fallback && self.preset is H264VideotoolboxMp4 {
            2
        } else if !self.used_safe_local_mask_fallback {
            1
        } else {
            0
        }
    }

    /// The first attempt.
    pub fn new(preset: ExportPreset, used_copy: bool) -> (a: ExportAttempt)
        ensures
            a == ExportAttempt::first(preset, used_copy),
    {
        ExportAttempt {
            preset,
            used_copy,
            used_safe_local_mask_fallback: false,
            used_videotoolbox_fallback: false,
        }
    }

    /// What is done after a failure.
    pub fn after_failure(&mut self, crashed: bool) -> (next: AfterFailure)
        ensures
            (*final(self), next) == old(self).next(crashed),
    {
        let can_render = !self.preset.is_audio_only() && !self.used_copy;
        if !self.used_videotoolbox_fallback && matches!(
            self.preset,
            ExportPreset::H264VideotoolboxMp4
        ) && can_render {
            self.preset = ExportPreset::H264Mp4;
            self.used_videotoolbox_fallback = true;
            self.used_safe_local_mask_fallback = false;
            return AfterFailure::Retry { preset: ExportPreset::H264Mp4, without_masks: false };
        }
        if !self.used_safe_local_mask_fallback && crashed && can_render {
            self.used_safe_local_mask_fallback = true;
            return AfterFailure::Retry { preset: self.preset, without_masks: true };
        }
        AfterFailure::Fail
    }
}

/// Every retry uses one of the tries that are left, of which there are two at most, so an
/// export ends; a copy and sound alone are never tried again.
pub proof fn export_ends(a: ExportAttempt, crashed: bool)
    ensures
        0 <= a.tries_left() <= 2,
        a.next(crashed).1 is Retry ==> a.next(crashed).0.tries_left() < a.tries_left(),
        a.used_copy || a.preset.audio_only() ==> a.next(crashed).1 is Fail,
{
}

} // verus!
