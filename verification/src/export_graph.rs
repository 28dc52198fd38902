//! The command by which a timeline is written to a file.
use crate::clip::{Clip, ClipView};
use crate::clip_effects::EffectKind;
use crate::copying::{copy_all, copy_text, optional, views, Duplicate};
use crate::export_clip::{
    build_single_clip_video_filter, drawn_tag, time_sum, Drawing, DrawingView, ExportClip,
    ExportClipView, ExportLook, LookView,
};
use crate::export_effects::{ClipWords, ClipWordsView, OpacityMode};
use crate::export_settings::{
    push_all, push_text, ExportPreset, ExportRange, ExportSettings, ExportSettingsView,
};
use crate::filter_words::{fixed, fixed_text, full, full_text, number_text};
use crate::media_paths::{is_image_ext, picture_name};
use crate::scalar::Scalar;
use crate::text::{decimal, decimal_text, owned, text_is};
use crate::time::{greatest, least, monus, Duration};
use vstd::prelude::*;

verus! {

broadcast use crate::copying::group_views;

/// Adjacent clips of a row that dissolve into each other: how long they should, and the
/// words of both while they do.
#[derive(Debug)]
pub struct DissolveCut {
    pub wanted: Duration,
    pub left: ClipWords,
    pub right: ClipWords,
}

/// A dissolve between two clips.
pub ghost struct DissolveCutView {
    pub wanted: int,
    pub left: ClipWordsView,
    pub right: ClipWordsView,
}

impl View for DissolveCut {
    type V = DissolveCutView;

    open spec fn view(&self) -> DissolveCutView {
        DissolveCutView { wanted: self.wanted@, left: self.left@, right: self.right@ }
    }
}

/// A row of pictures. The cut with an index is between the clip with that index and the
/// next.
#[derive(Debug)]
pub struct ExportLane {
    pub clips: Vec<ExportClip>,
    pub cuts: Vec<DissolveCut>,
}

/// A row of pictures.
pub ghost struct ExportLaneView {
    pub clips: Seq<ExportClipView>,
    pub cuts: Seq<DissolveCutView>,
}

impl View for ExportLane {
    type V = ExportLaneView;

    open spec fn view(&self) -> ExportLaneView {
        ExportLaneView { clips: views(self.clips@), cuts: views(self.cuts@) }
    }
}

/// A sound: whether its file has any, and how loud it is made if that changes it.
#[derive(Debug)]
pub struct ExportSound {
    pub clip: Clip,
    pub has_audio: bool,
    pub volume: Option<String>,
}

/// A sound.
pub ghost struct ExportSoundView {
    pub clip: ClipView,
    pub has_audio: bool,
    pub volume: Option<Seq<char>>,
}

impl View for ExportSound {
    type V = ExportSoundView;

    open spec fn view(&self) -> ExportSoundView {
        ExportSoundView {
            clip: self.clip@,
            has_audio: self.has_audio,
            volume: optional(self.volume),
        }
    }
}

impl Duplicate for ExportSound {
    fn duplicate(&self) -> (copy: Self) {
        ExportSound {
            clip: self.clip.clone(),
            has_audio: self.has_audio,
            volume: copy_text(&self.volume),
        }
    }
}

/// A row of sounds, and how loud it is made if that changes it.
#[derive(Debug)]
pub struct ExportAudioLane {
    pub sounds: Vec<ExportSound>,
    pub volume: Option<String>,
}

/// A row of sounds.
pub ghost struct ExportAudioLaneView {
    pub sounds: Seq<ExportSoundView>,
    pub volume: Option<Seq<char>>,
}

impl View for ExportAudioLane {
    type V = ExportAudioLaneView;

    open spec fn view(&self) -> ExportAudioLaneView {
        ExportAudioLaneView { sounds: views(self.sounds@), volume: optional(self.volume) }
    }
}

impl Duplicate for ExportAudioLane {
    fn duplicate(&self) -> (copy: Self) {
        ExportAudioLane { sounds: copy_all(&self.sounds), volume: copy_text(&self.volume) }
    }
}

/// A subtitle as a picture, and when it is shown, in words.
#[derive(Debug)]
pub struct SubtitleOverlay {
    pub path: String,
    pub start: String,
    pub end: String,
}

/// A subtitle as a picture.
pub ghost struct SubtitleOverlayView {
    pub path: Seq<char>,
    pub start: Seq<char>,
    pub end: Seq<char>,
}

impl View for SubtitleOverlay {
    type V = SubtitleOverlayView;

    open spec fn view(&self) -> SubtitleOverlayView {
        SubtitleOverlayView { path: self.path@, start: self.start@, end: self.end@ }
    }
}

/// All that is exported.
#[derive(Debug)]
pub struct ExportContent {
    pub v1: ExportLane,
    pub overlays: Vec<ExportLane>,
    pub sounds: Vec<ExportAudioLane>,
    pub subtitles: Vec<SubtitleOverlay>,
    pub length: Duration,
}

/// All that is exported.
pub ghost struct ContentView {
    pub v1: ExportLaneView,
    pub overlays: Seq<ExportLaneView>,
    pub sounds: Seq<ExportAudioLaneView>,
    pub subtitles: Seq<SubtitleOverlayView>,
    pub length: int,
}

impl View for ExportContent {
    type V = ContentView;

    open spec fn view(&self) -> ContentView {
        ContentView {
            v1: self.v1@,
            overlays: views(self.overlays@),
            sounds: views(self.sounds@),
            subtitles: views(self.subtitles@),
            length: self.length@,
        }
    }
}

/// The content without pictures and subtitles.
pub open spec fn sound_alone(content: ContentView) -> ContentView {
    let none = ExportLaneView { clips: seq![], cuts: seq![] };
    ContentView { v1: none, overlays: seq![], subtitles: seq![], ..content }
}

impl ExportContent {
    /// The content without pictures and subtitles.
    pub fn sound_only(&self) -> (content: ExportContent)
        ensures
            content@ == sound_alone(self@),
            self@.countable() ==> content@.countable(),
            content@.told(),
    {
        let content = ExportContent {
            v1: ExportLane { clips: Vec::new(), cuts: Vec::new() },
            overlays: Vec::new(),
            sounds: copy_all(&self.sounds),
            subtitles: Vec::new(),
            length: self.length,
        };
        proof {
            assert(content@.v1.clips =~= seq![]);
            assert(content@.v1.cuts =~= seq![]);
            assert(content@.overlays =~= seq![]);
            assert(content@.subtitles =~= seq![]);
            lemma_picture_count(self@.overlays, self@.overlays.len() as int);
        }
        content
    }
}

// ---------------------------------------------------------------------------
// Inputs
// ---------------------------------------------------------------------------

/// The files that are read: the options for them, and under which key each stands.
#[derive(Debug)]
pub struct Inputs {
    pub args: Vec<String>,
    pub keys: Vec<String>,
}

/// The files that are read.
pub ghost struct InputsView {
    pub args: Seq<Seq<char>>,
    pub keys: Seq<Seq<char>>,
}

impl View for Inputs {
    type V = InputsView;

    open spec fn view(&self) -> InputsView {
        InputsView { args: views(self.args@), keys: views(self.keys@) }
    }
}

/// The key of a still picture.
pub open spec fn picture_key(path: Seq<char>, fps: Seq<char>, length: Seq<char>) -> Seq<char> {
    "img|"@
        + path
        + "|fps="@
        + fps
        + "|dur="@
        + length
}

pub fn picture_key_text(path: &str, fps: &str, length: &str) -> (text: String)
    ensures
        text@ == picture_key(path@, fps@, length@),
{
    let mut text = owned("img|");
    text.append(path);
    text.append("|fps=");
    text.append(fps);
    text.append("|dur=");
    text.append(length);
    text
}

/// The key of other media.
pub open spec fn media_key(path: Seq<char>) -> Seq<char> {
    "media|"@
        + path
}

pub fn media_key_text(path: &str) -> (text: String)
    ensures
        text@ == media_key(path@),
{
    let mut text = owned("media|");
    text.append(path);
    text
}

/// The key of a file; the same file is read once, a still picture once for each length.
pub open spec fn input_key(path: Seq<char>, image: Option<int>, fps: int) -> Seq<char> {
    match image {
        Some(d) => picture_key(path, decimal(fps), fixed(d)),
        None => media_key(path),
    }
}

/// Whether a text is the key.
pub open spec fn is_key(key: Seq<char>) -> spec_fn(Seq<char>) -> bool {
    |k: Seq<char>| k == key
}

/// The place of a key.
pub open spec fn key_place(keys: Seq<Seq<char>>, key: Seq<char>) -> int {
    crate::lists::first(keys, is_key(key))
}

impl InputsView {
    /// The inputs with a file, if it was not among them yet.
    pub open spec fn with(self, path: Seq<char>, image: Option<int>, fps: int) -> InputsView {
        let key = input_key(path, image, fps);
        if key_place(self.keys, key) < self.keys.len() {
            self
        } else {
            let opened = match image {
                Some(d) => self.args + seq![
                    "-loop"@,
                    "1"@,
                    "-framerate"@,
                    decimal(fps),
                    "-t"@,
                    full(d),
                ],
                None => self.args,
            };
            InputsView { args: opened + seq!["-i"@, path], keys: self.keys.push(key) }
        }
    }

    /// The number of the input that a file is.
    pub open spec fn number(self, path: Seq<char>, image: Option<int>, fps: int) -> int {
        key_place(self.keys, input_key(path, image, fps))
    }
}

fn find_key(keys: &Vec<String>, key: &str) -> (at: usize)
    ensures
        at == key_place(views(keys@), key@),
        at <= keys.len(),
{
    let ghost p = is_key(key@);
    let mut i: usize = 0;
    while i < keys.len()
        invariant
            i <= keys.len(),
            p == is_key(key@),
            forall|j: int| 0 <= j < i ==> !p(#[trigger] views(keys@)[j]),
        decreases keys.len() - i,
    {
        if text_is(keys[i].as_str(), key) {
            proof {
                assert(p(views(keys@)[i as int]));
                crate::lists::lemma_first_is(views(keys@), p, i as int);
            }
            return i;
        }
        assert(!p(views(keys@)[i as int]));
        i += 1;
    }
    proof {
        crate::lists::lemma_first_is(views(keys@), p, i as int);
    }
    i
}

impl Inputs {
    /// Adds a file, if it is not among the inputs yet; gives its number.
    fn add_input(&mut self, path: &str, image: Option<Duration>, fps: u32) -> (n: usize)
        ensures
            final(self)@ == old(self)@.with(path@, optional(image), fps as int),
            n == old(self)@.number(path@, optional(image), fps as int),
    {
        let fps_text = decimal_text(fps as u64);
        let key = match image {
            Some(d) => picture_key_text(path, fps_text.as_str(), fixed_text(d).as_str()),
            None => media_key_text(path),
        };
        let at = find_key(&self.keys, key.as_str());
        if at < self.keys.len() {
            return at;
        }
        reveal(views);
        if let Some(d) = image {
            let length = full_text(d);
            let list = [
                "-loop",
                "1",
                "-framerate",
                fps_text.as_str(),
                "-t",
                length.as_str(),
            ];
            push_all(&mut self.args, &list);
            assert(views(list@) =~= seq![
                "-loop"@,
                "1"@,
                "-framerate"@,
                decimal(fps as int),
                "-t"@,
                full(d@),
            ]);
        }
        let list = ["-i", path];
        push_all(&mut self.args, &list);
        assert(views(list@) =~= seq!["-i"@, path@]);
        push_text(&mut self.keys, key.as_str());
        at
    }
}

/// How long a still picture is shown; nothing for other media.
pub open spec fn still_length(c: ClipView) -> Option<int> {
    if picture_name(c.file_path) {
        Some(c.duration)
    } else {
        None
    }
}

fn find_still_length(c: &Clip) -> (d: Option<Duration>)
    ensures
        optional(d) == still_length(c@),
{
    if is_image_ext(c.file_path.as_str()) {
        Some(c.duration)
    } else {
        None
    }
}

/// The inputs with the files of the first `n` pictures, and the number of each.
pub open spec fn picture_inputs(
    inputs: InputsView,
    clips: Seq<ExportClipView>,
    n: int,
    fps: int,
) -> (InputsView, Seq<int>)
    decreases n,
{
    if n <= 0 {
        (inputs, seq![])
    } else {
        let (before, numbers) = picture_inputs(inputs, clips, n - 1, fps);
        let c = clips[n - 1].clip;
        (
            before.with(c.file_path, still_length(c), fps),
            numbers.push(before.number(c.file_path, still_length(c), fps)),
        )
    }
}

/// The inputs with the files of the first `n` sounds, and the number of each.
pub open spec fn sound_inputs(
    inputs: InputsView,
    sounds: Seq<ExportSoundView>,
    n: int,
    fps: int,
) -> (InputsView, Seq<int>)
    decreases n,
{
    if n <= 0 {
        (inputs, seq![])
    } else {
        let (before, numbers) = sound_inputs(inputs, sounds, n - 1, fps);
        let path = sounds[n - 1].clip.file_path;
        (before.with(path, None, fps), numbers.push(before.number(path, None, fps)))
    }
}

/// The numbers as they are.
pub open spec fn numbers(list: Seq<usize>) -> Seq<int> {
    list.map_values(|n: usize| n as int)
}

fn add_picture_inputs(inputs: &mut Inputs, lane: &ExportLane, fps: u32) -> (list: Vec<usize>)
    ensures
        (final(inputs)@, numbers(list@)) == picture_inputs(
            old(inputs)@,
            lane@.clips,
            lane.clips.len() as int,
            fps as int,
        ),
        list.len() == lane.clips.len(),
{
    let ghost before = inputs@;
    let mut list: Vec<usize> = Vec::new();
    let mut i: usize = 0;
    assert(numbers(list@) =~= seq![]);
    while i < lane.clips.len()
        invariant
            i <= lane.clips.len(),
            list.len() == i,
            (inputs@, numbers(list@)) == picture_inputs(before, lane@.clips, i as int, fps as int),
        decreases lane.clips.len() - i,
    {
        let ghost so_far = list@;
        let c = &lane.clips[i].clip;
        let n = inputs.add_input(c.file_path.as_str(), find_still_length(c), fps);
        list.push(n);
        assert(numbers(list@) =~= numbers(so_far).push(n as int));
        i += 1;
    }
    list
}

fn add_sound_inputs(inputs: &mut Inputs, lane: &ExportAudioLane, fps: u32) -> (list: Vec<usize>)
    ensures
        (final(inputs)@, numbers(list@)) == sound_inputs(
            old(inputs)@,
            lane@.sounds,
            lane.sounds.len() as int,
            fps as int,
        ),
        list.len() == lane.sounds.len(),
{
    let ghost before = inputs@;
    let mut list: Vec<usize> = Vec::new();
    let mut i: usize = 0;
    assert(numbers(list@) =~= seq![]);
    while i < lane.sounds.len()
        invariant
            i <= lane.sounds.len(),
            list.len() == i,
            (inputs@, numbers(list@)) == sound_inputs(before, lane@.sounds, i as int, fps as int),
        decreases lane.sounds.len() - i,
    {
        let ghost so_far = list@;
        let n = inputs.add_input(lane.sounds[i].clip.file_path.as_str(), None, fps);
        list.push(n);
        assert(numbers(list@) =~= numbers(so_far).push(n as int));
        i += 1;
    }
    list
}

/// The inputs with the files of the first `n` rows of pictures, and the numbers of each.
pub open spec fn lanes_inputs(
    inputs: InputsView,
    lanes: Seq<ExportLaneView>,
    n: int,
    fps: int,
) -> (InputsView, Seq<Seq<int>>)
    decreases n,
{
    if n <= 0 {
        (inputs, seq![])
    } else {
        let (before, lists) = lanes_inputs(inputs, lanes, n - 1, fps);
        let (after, list) = picture_inputs(
            before,
            lanes[n - 1].clips,
            lanes[n - 1].clips.len() as int,
            fps,
        );
        (after, lists.push(list))
    }
}

/// The inputs with the files of the first `n` rows of sounds, and the numbers of each.
pub open spec fn audio_inputs(
    inputs: InputsView,
    lanes: Seq<ExportAudioLaneView>,
    n: int,
    fps: int,
) -> (InputsView, Seq<Seq<int>>)
    decreases n,
{
    if n <= 0 {
        (inputs, seq![])
    } else {
        let (before, lists) = audio_inputs(inputs, lanes, n - 1, fps);
        let (after, list) = sound_inputs(
            before,
            lanes[n - 1].sounds,
            lanes[n - 1].sounds.len() as int,
            fps,
        );
        (after, lists.push(list))
    }
}

/// Lists of numbers as they are.
pub open spec fn number_lists(lists: Seq<Vec<usize>>) -> Seq<Seq<int>> {
    lists.map_values(|l: Vec<usize>| numbers(l@))
}

fn add_lanes_inputs(inputs: &mut Inputs, lanes: &Vec<ExportLane>, fps: u32) -> (lists: Vec<
    Vec<usize>,
>)
    ensures
        (final(inputs)@, number_lists(lists@)) == lanes_inputs(
            old(inputs)@,
            views(lanes@),
            lanes.len() as int,
            fps as int,
        ),
        lists.len() == lanes.len(),
        forall|k: int| 0 <= k < lists.len() ==> (#[trigger] lists@[k]).len() == lanes@[k].clips.len(),
{
    let ghost before = inputs@;
    let mut lists: Vec<Vec<usize>> = Vec::new();
    let mut i: usize = 0;
    assert(number_lists(lists@) =~= seq![]);
    while i < lanes.len()
        invariant
            i <= lanes.len(),
            lists.len() == i,
            forall|k: int| 0 <= k < i ==> (#[trigger] lists@[k]).len() == lanes@[k].clips.len(),
            (inputs@, number_lists(lists@)) == lanes_inputs(
                before,
                views(lanes@),
                i as int,
                fps as int,
            ),
        decreases lanes.len() - i,
    {
        let ghost so_far = lists@;
        let list = add_picture_inputs(inputs, &lanes[i], fps);
        let ghost these = list@;
        lists.push(list);
        assert(number_lists(lists@) =~= number_lists(so_far).push(numbers(these)));
        i += 1;
    }
    lists
}

fn add_audio_inputs(inputs: &mut Inputs, lanes: &Vec<ExportAudioLane>, fps: u32) -> (lists: Vec<
    Vec<usize>,
>)
    ensures
        (final(inputs)@, number_lists(lists@)) == audio_inputs(
            old(inputs)@,
            views(lanes@),
            lanes.len() as int,
            fps as int,
        ),
        lists.len() == lanes.len(),
        forall|k: int|
            0 <= k < lists.len() ==> (#[trigger] lists@[k]).len() == lanes@[k].sounds.len(),
{
    let ghost before = inputs@;
    let mut lists: Vec<Vec<usize>> = Vec::new();
    let mut i: usize = 0;
    assert(number_lists(lists@) =~= seq![]);
    while i < lanes.len()
        invariant
            i <= lanes.len(),
            lists.len() == i,
            forall|k: int| 0 <= k < i ==> (#[trigger] lists@[k]).len() == lanes@[k].sounds.len(),
            (inputs@, number_lists(lists@)) == audio_inputs(
                before,
                views(lanes@),
                i as int,
                fps as int,
            ),
        decreases lanes.len() - i,
    {
        let ghost so_far = lists@;
        let list = add_sound_inputs(inputs, &lanes[i], fps);
        let ghost these = list@;
        lists.push(list);
        assert(number_lists(lists@) =~= number_lists(so_far).push(numbers(these)));
        i += 1;
    }
    lists
}

/// The options for the first `n` subtitles, each an input of its own.
pub open spec fn subtitle_args(
    args: Seq<Seq<char>>,
    subtitles: Seq<SubtitleOverlayView>,
    n: int,
    fps: int,
    length: int,
) -> Seq<Seq<char>>
    decreases n,
{
    if n <= 0 {
        args
    } else {
        subtitle_args(args, subtitles, n - 1, fps, length) + seq![
            "-loop"@,
            "1"@,
            "-framerate"@,
            decimal(fps),
            "-t"@,
            full(length),
            "-i"@,
            subtitles[n - 1].path,
        ]
    }
}

fn add_subtitle_args(
    args: &mut Vec<String>,
    subtitles: &Vec<SubtitleOverlay>,
    fps: u32,
    length: Duration,
)
    ensures
        views(final(args)@) == subtitle_args(
            views(old(args)@),
            views(subtitles@),
            subtitles.len() as int,
            fps as int,
            length@,
        ),
{
    let ghost before = views(args@);
    let fps_text = decimal_text(fps as u64);
    let length_text = full_text(length);
    let mut i: usize = 0;
    while i < subtitles.len()
        invariant
            i <= subtitles.len(),
            fps_text@ == decimal(fps as int),
            length_text@ == full(length@),
            views(args@) == subtitle_args(
                before,
                views(subtitles@),
                i as int,
                fps as int,
                length@,
            ),
        decreases subtitles.len() - i,
    {
        reveal(views);
        let list = [
            "-loop",
            "1",
            "-framerate",
            fps_text.as_str(),
            "-t",
            length_text.as_str(),
            "-i",
            subtitles[i].path.as_str(),
        ];
        push_all(args, &list);
        assert(views(list@) =~= seq![
            "-loop"@,
            "1"@,
            "-framerate"@,
            decimal(fps as int),
            "-t"@,
            full(length@),
            "-i"@,
            views(subtitles@)[i as int].path,
        ]);
        i += 1;
    }
}

// ---------------------------------------------------------------------------
// Rows of pictures
// ---------------------------------------------------------------------------

/// The name of a gap.
pub open spec fn gap_tag(label: Seq<char>, i: Seq<char>) -> Seq<char> {
    "["@
        + label
        + "_gap_"@
        + i
        + "]"@
}

pub fn gap_tag_text(label: &str, i: &str) -> (text: String)
    ensures
        text@ == gap_tag(label@, i@),
{
    let mut text = owned("[");
    text.append(label);
    text.append("_gap_");
    text.append(i);
    text.append("]");
    text
}

/// The name of the gap at the end.
pub open spec fn end_gap_tag(label: Seq<char>) -> Seq<char> {
    "["@
        + label
        + "_gap_end]"@
}

pub fn end_gap_tag_text(label: &str) -> (text: String)
    ensures
        text@ == end_gap_tag(label@),
{
    let mut text = owned("[");
    text.append(label);
    text.append("_gap_end]");
    text
}

/// A picture of one colour.
pub open spec fn gap_filter(color: Seq<char>, w: Seq<char>, h: Seq<char>, fps: Seq<char>, length: Seq<char>, tag: Seq<char>) -> Seq<char> {
    "color=c="@
        + color
        + ":s="@
        + w
        + "x"@
        + h
        + ":r="@
        + fps
        + ":d="@
        + length
        + ",format=bgra"@
        + tag
}

pub fn gap_filter_text(color: &str, w: &str, h: &str, fps: &str, length: &str, tag: &str) -> (text: String)
    ensures
        text@ == gap_filter(color@, w@, h@, fps@, length@, tag@),
{
    let mut text = owned("color=c=");
    text.append(color);
    text.append(":s=");
    text.append(w);
    text.append("x");
    text.append(h);
    text.append(":r=");
    text.append(fps);
    text.append(":d=");
    text.append(length);
    text.append(",format=bgra");
    text.append(tag);
    text
}

/// Pictures one behind the other.
pub open spec fn concat_filter(list: Seq<char>, count: Seq<char>, tag: Seq<char>) -> Seq<char> {
    list
        + "concat=n="@
        + count
        + ":v=1:a=0,format=bgra"@
        + tag
}

pub fn concat_filter_text(list: &str, count: &str, tag: &str) -> (text: String)
    ensures
        text@ == concat_filter(list@, count@, tag@),
{
    let mut text = owned(list);
    text.append("concat=n=");
    text.append(count);
    text.append(":v=1:a=0,format=bgra");
    text.append(tag);
    text
}

/// How far a row has been laid out: the filters, the names of its pictures one behind
/// the other, how many they are, where it has come to, and where each clip starts.
pub ghost struct LaneRun {
    pub parts: Seq<Seq<char>>,
    pub names: Seq<char>,
    pub count: int,
    pub cursor: int,
    pub starts: Seq<int>,
}

/// A row of pictures: its label, and whether it lies over others.
pub ghost struct LaneKind {
    pub label: Seq<char>,
    pub over: bool,
}

impl LaneKind {
    /// The colour of its gaps: nothing to be seen where it lies over others.
    pub open spec fn gap_color(self) -> Seq<char> {
        if self.over {
            "black@0"@
        } else {
            "black"@
        }
    }

    /// How opacities count: a row below the others has nothing to be seen through.
    pub open spec fn mode(self) -> OpacityMode {
        if self.over {
            OpacityMode::AlphaOnly
        } else {
            OpacityMode::MultiplyRgb
        }
    }
}

fn mode_of(over: bool) -> (mode: OpacityMode)
    ensures
        forall|label: Seq<char>| mode == (LaneKind { label, over }).mode(),
{
    if over {
        OpacityMode::AlphaOnly
    } else {
        OpacityMode::MultiplyRgb
    }
}

fn gap_color_of(over: bool) -> (color: &'static str)
    ensures
        forall|label: Seq<char>| color@ == (#[trigger] (LaneKind { label, over }).gap_color()),
{
    if over {
        "black@0"
    } else {
        "black"
    }
}

impl LookView {
    /// A gap of some length.
    pub open spec fn gap(self, color: Seq<char>, length: int, tag: Seq<char>) -> Seq<char> {
        gap_filter(
            color,
            decimal(self.width),
            decimal(self.height),
            decimal(self.fps),
            full(length),
            tag,
        )
    }

    /// The row with a gap up to the time at which the next clip starts.
    pub open spec fn with_gap(self, run: LaneRun, kind: LaneKind, start: int, i: int) -> LaneRun {
        if start > run.cursor {
            let tag = gap_tag(kind.label, decimal(i));
            LaneRun {
                parts: run.parts.push(
                    self.gap(kind.gap_color(), monus(start, run.cursor), tag),
                ),
                names: run.names + tag,
                count: run.count + 1,
                ..run
            }
        } else {
            run
        }
    }

    /// The row with one more clip. A row over others goes on where it has come to, the
    /// main one where the clip ends.
    #[verifier::opaque]
    pub open spec fn with_clip(
        self,
        run: LaneRun,
        kind: LaneKind,
        e: ExportClipView,
        input: int,
        i: int,
    ) -> LaneRun {
        let g = self.with_gap(run, kind, e.clip.start, i);
        let start = if kind.over {
            greatest(e.clip.start, run.cursor)
        } else {
            e.clip.start
        };
        let d = DrawingView {
            input,
            prefix: kind.label,
            index: i,
            mode: kind.mode(),
            include_dissolve: false,
        };
        LaneRun {
            parts: self.drawn(e, d, g.parts),
            names: g.names + drawn_tag(d),
            count: g.count + 1,
            cursor: time_sum(start, e.clip.duration),
            starts: run.starts.push(start),
        }
    }

    /// The row with its first `n` clips.
    pub open spec fn lane_run(
        self,
        parts: Seq<Seq<char>>,
        kind: LaneKind,
        clips: Seq<ExportClipView>,
        inputs: Seq<int>,
        n: int,
    ) -> LaneRun
        decreases n,
    {
        if n <= 0 {
            LaneRun { parts, names: ""@, count: 0, cursor: 0, starts: seq![] }
        } else {
            self.with_clip(
                self.lane_run(parts, kind, clips, inputs, n - 1),
                kind,
                clips[n - 1],
                inputs[n - 1],
                n - 1,
            )
        }
    }

    /// The row with a gap up to the end of the timeline, if it ends before.
    pub open spec fn with_end(self, run: LaneRun, kind: LaneKind, length: int) -> LaneRun {
        if run.cursor < length {
            let tag = end_gap_tag(kind.label);
            LaneRun {
                parts: run.parts.push(
                    self.gap(kind.gap_color(), monus(length, run.cursor), tag),
                ),
                names: run.names + tag,
                count: run.count + 1,
                ..run
            }
        } else {
            run
        }
    }

    /// The whole row as one picture with the given name.
    pub open spec fn lane_joined(self, run: LaneRun, tag: Seq<char>) -> Seq<Seq<char>> {
        run.parts.push(concat_filter(run.names, decimal(run.count), tag))
    }
}

/// How far a row has been laid out.
struct Row {
    names: String,
    count: usize,
    cursor: Duration,
    starts: Vec<Duration>,
}

/// The times in a list.
pub open spec fn times(list: Seq<Duration>) -> Seq<int> {
    list.map_values(|d: Duration| d@)
}

impl Row {
    spec fn run(&self, parts: Seq<Seq<char>>) -> LaneRun {
        LaneRun {
            parts,
            names: self.names@,
            count: self.count as int,
            cursor: self.cursor@,
            starts: times(self.starts@),
        }
    }
}

fn gap_text(look: &ExportLook, color: &str, length: Duration, tag: &str) -> (text: String)
    ensures
        text@ == look@.gap(color@, length@, tag@),
{
    gap_filter_text(
        color,
        decimal_text(look.width as u64).as_str(),
        decimal_text(look.height as u64).as_str(),
        decimal_text(look.fps as u64).as_str(),
        full_text(length).as_str(),
        tag,
    )
}

fn lay_clip(
    parts: &mut Vec<String>,
    row: &mut Row,
    label: &str,
    over: bool,
    e: &ExportClip,
    input: usize,
    i: usize,
    look: &ExportLook,
)
    requires
        old(row).count < usize::MAX - 1,
        e@.words.tells(e@.clip),
        look@.told(),
    ensures
        final(row).run(views(final(parts)@)) == look@.with_clip(
            old(row).run(views(old(parts)@)),
            LaneKind { label: label@, over },
            e@,
            input as int,
            i as int,
        ),
        final(row).count <= old(row).count + 2,
{
    reveal(LookView::with_clip);
    let ghost run = row.run(views(parts@));
    let ghost kind = LaneKind { label: label@, over };
    let start = if over {
        e.clip.start.max(row.cursor)
    } else {
        e.clip.start
    };
    if e.clip.start.nanos > row.cursor.nanos {
        let tag = gap_tag_text(label, number_text(i).as_str());
        let length = e.clip.start.saturating_sub(row.cursor);
        let text = gap_text(look, gap_color_of(over), length, tag.as_str());
        push_text(parts, text.as_str());
        row.names.append(tag.as_str());
        row.count += 1;
    }
    assert(row.run(views(parts@)) == look@.with_gap(run, kind, e@.clip.start, i as int));
    let d = Drawing {
        input,
        prefix: label,
        index: i,
        mode: mode_of(over),
        include_dissolve: false,
    };
    assert(d@.mode == kind.mode());
    let tag = build_single_clip_video_filter(parts, &e.clip, &e.words, d, look);
    row.names.append(tag.as_str());
    row.count += 1;
    row.cursor = start.saturating_add(e.clip.duration);
    let ghost so_far = row.starts@;
    row.starts.push(start);
    assert(times(row.starts@) =~= times(so_far).push(start@));
}

/// Lays out a row of pictures and joins it; gives where each clip starts.
fn lay_lane(
    parts: &mut Vec<String>,
    lane: &ExportLane,
    inputs: &Vec<usize>,
    label: &str,
    over: bool,
    length: Duration,
    tag: &str,
    look: &ExportLook,
) -> (starts: Vec<Duration>)
    requires
        inputs.len() == lane.clips.len(),
        lane.clips.len() < usize::MAX / 2 - 1,
        lane@.told(),
        look@.told(),
    ensures
        ({
            let kind = LaneKind { label: label@, over };
            let run = look@.lane_run(
                views(old(parts)@),
                kind,
                lane@.clips,
                numbers(inputs@),
                lane.clips.len() as int,
            );
            &&& views(final(parts)@) == look@.lane_joined(
                look@.with_end(run, kind, length@),
                tag@,
            )
            &&& times(starts@) == run.starts
        }),
{
    let ghost before = views(parts@);
    let ghost kind = LaneKind { label: label@, over };
    let mut row = Row {
        names: owned(""),
        count: 0,
        cursor: Duration::zero(),
        starts: Vec::new(),
    };
    assert(times(row.starts@) =~= seq![]);
    let mut i: usize = 0;
    while i < lane.clips.len()
        invariant
            i <= lane.clips.len(),
            inputs.len() == lane.clips.len(),
            lane.clips.len() < usize::MAX / 2 - 1,
            lane@.told(),
            look@.told(),
            row.count <= 2 * i,
            kind == (LaneKind { label: label@, over }),
            row.run(views(parts@)) == look@.lane_run(
                before,
                kind,
                lane@.clips,
                numbers(inputs@),
                i as int,
            ),
        decreases lane.clips.len() - i,
    {
        assert(lane@.clips[i as int] == lane.clips@[i as int]@);
        lay_clip(parts, &mut row, label, over, &lane.clips[i], inputs[i], i, look);
        i += 1;
    }
    if row.cursor.nanos < length.nanos {
        let gap = end_gap_tag_text(label);
        let rest = length.saturating_sub(row.cursor);
        let text = gap_text(look, gap_color_of(over), rest, gap.as_str());
        push_text(parts, text.as_str());
        row.names.append(gap.as_str());
        row.count += 1;
    }
    push_text(
        parts,
        concat_filter_text(row.names.as_str(), number_text(row.count).as_str(), tag).as_str(),
    );
    row.starts
}

// ---------------------------------------------------------------------------
// Dissolves
// ---------------------------------------------------------------------------

/// The bit pattern of the largest number that is no longer than a thousandth.
pub const NO_DISSOLVE: u32 = 0x3a83_126e;

/// A thousandth of a second.
pub const SHORTEST_DISSOLVE: u128 = 1_000_000;

/// What a file has left after a clip.
pub open spec fn media_left(c: ClipView) -> int {
    monus(c.media_duration, time_sum(c.source_in, c.duration))
}

/// Whether a number of seconds is at most a thousandth.
pub open spec fn too_short(s: Scalar) -> bool {
    !s.nan() && s.key() <= NO_DISSOLVE
}

/// Whether two adjacent clips dissolve into each other. On the main row the file of the
/// first must go on after it.
pub open spec fn dissolves(left: ClipView, right: ClipView, over: bool) -> bool {
    let wanted = left.effect(EffectKind::Dissolve)->Dissolve_dissolve_out.smaller(
        right.effect(EffectKind::Dissolve)->Dissolve_dissolve_in,
    );
    !too_short(wanted) && (over || media_left(left) > SHORTEST_DISSOLVE) && left.duration
        > SHORTEST_DISSOLVE && right.duration > SHORTEST_DISSOLVE
}

/// How long two adjacent clips dissolve into each other.
pub open spec fn dissolve_length(left: ClipView, right: ClipView, over: bool, wanted: int) -> int {
    let possible = least(least(wanted, left.duration), right.duration);
    if over {
        possible
    } else {
        least(possible, media_left(left))
    }
}

/// Whether two adjacent clips dissolve into each other.
pub fn has_dissolve(left: &Clip, right: &Clip, over: bool) -> (yes: bool)
    ensures
        yes == dissolves(left@, right@, over),
{
    let wanted = left.get_dissolve_out().min(right.get_dissolve_in());
    let shortest = Scalar { bits: NO_DISSOLVE };
    let left_post = left.media_duration.saturating_sub(left.source_in.saturating_add(left.duration));
    !wanted.le(shortest) && (over || left_post.nanos > SHORTEST_DISSOLVE) && left.duration.nanos
        > SHORTEST_DISSOLVE && right.duration.nanos > SHORTEST_DISSOLVE
}

/// How long two adjacent clips dissolve into each other.
pub fn length_of_dissolve(left: &Clip, right: &Clip, over: bool, wanted: Duration) -> (d: Duration)
    ensures
        d@ == dissolve_length(left@, right@, over, wanted@),
{
    let possible = wanted.min(left.duration).min(right.duration);
    if over {
        possible
    } else {
        possible.min(
            left.media_duration.saturating_sub(left.source_in.saturating_add(left.duration)),
        )
    }
}

/// A dissolve takes no more than what both clips show, and on the main row no more than
/// the file of the first has left.
pub proof fn dissolve_fits(left: ClipView, right: ClipView, over: bool, wanted: int)
    ensures
        dissolve_length(left, right, over, wanted) <= wanted,
        dissolve_length(left, right, over, wanted) <= left.duration,
        dissolve_length(left, right, over, wanted) <= right.duration,
        !over ==> dissolve_length(left, right, over, wanted) <= media_left(left),
{
}

impl ClipView {
    /// A piece of the clip's file as a clip of its own, without fades and dissolves and,
    /// if asked, without keyframes other than for its blur.
    #[verifier::opaque]
    pub open spec fn segment(
        self,
        source_in: int,
        start: int,
        duration: int,
        clear_keys: bool,
    ) -> ClipView {
        let c = ClipView { source_in, start, duration, ..self }.without_fades().with_dissolve_in(
            Scalar { bits: 0 },
        ).with_dissolve_out(Scalar { bits: 0 });
        if clear_keys {
            ClipView {
                keyframes: crate::clip::KeyframesView {
                    pos_x: seq![],
                    pos_y: seq![],
                    scale: seq![],
                    rotation: seq![],
                    brightness: seq![],
                    contrast: seq![],
                    saturation: seq![],
                    opacity: seq![],
                    ..c.keyframes
                },
                ..c
            }
        } else {
            c
        }
    }
}

/// A piece of the clip's file as a clip of its own.
pub fn clip_segment_for_export(
    clip: &Clip,
    source_in: Duration,
    start: Duration,
    duration: Duration,
    clear_keys: bool,
) -> (segment: Clip)
    ensures
        segment@ == clip@.segment(source_in@, start@, duration@, clear_keys),
{
    reveal(ClipView::segment);
    let mut c = clip.clone();
    c.source_in = source_in;
    c.start = start;
    c.duration = duration;
    let none = Scalar { bits: 0 };
    c.set_fade_in(none);
    c.set_fade_out(none);
    c.set_dissolve_in(none);
    c.set_dissolve_out(none);
    if clear_keys {
        c.pos_x_keyframes = Vec::new();
        c.pos_y_keyframes = Vec::new();
        c.scale_keyframes = Vec::new();
        c.rotation_keyframes = Vec::new();
        c.brightness_keyframes = Vec::new();
        c.contrast_keyframes = Vec::new();
        c.saturation_keyframes = Vec::new();
        c.opacity_keyframes = Vec::new();
        proof {
            let wanted = clip@.segment(source_in@, start@, duration@, clear_keys);
            assert(c@.keyframes =~= wanted.keyframes);
        }
    }
    c
}

/// The label of one side of a dissolve.
pub open spec fn side_label(base: Seq<char>, side: Seq<char>) -> Seq<char> {
    base
        + "_dissolve_"@
        + side
}

pub fn side_label_text(base: &str, side: &str) -> (text: String)
    ensures
        text@ == side_label(base@, side@),
{
    let mut text = owned(base);
    text.append("_dissolve_");
    text.append(side);
    text
}

/// The name of a picture in the making of a dissolve.
pub open spec fn step_tag(base: Seq<char>, what: Seq<char>, i: Seq<char>) -> Seq<char> {
    "["@
        + base
        + "_dissolve_"@
        + what
        + "_"@
        + i
        + "]"@
}

pub fn step_tag_text(base: &str, what: &str, i: &str) -> (text: String)
    ensures
        text@ == step_tag(base@, what@, i@),
{
    let mut text = owned("[");
    text.append(base);
    text.append("_dissolve_");
    text.append(what);
    text.append("_");
    text.append(i);
    text.append("]");
    text
}

/// One picture turning into another.
pub open spec fn blend_filter(left: Seq<char>, right: Seq<char>, d: Seq<char>, tag: Seq<char>) -> Seq<char> {
    left
        + right
        + "blend=all_expr='A*(1-clip(T/"@
        + d
        + ",0,1))+B*clip(T/"@
        + d
        + ",0,1)':shortest=1,format=bgra"@
        + tag
}

pub fn blend_filter_text(left: &str, right: &str, d: &str, tag: &str) -> (text: String)
    ensures
        text@ == blend_filter(left@, right@, d@, tag@),
{
    let mut text = owned(left);
    text.append(right);
    text.append("blend=all_expr='A*(1-clip(T/");
    text.append(d);
    text.append(",0,1))+B*clip(T/");
    text.append(d);
    text.append(",0,1)':shortest=1,format=bgra");
    text.append(tag);
    text
}

/// A picture that starts later.
pub open spec fn timed_filter(from: Seq<char>, start: Seq<char>, tag: Seq<char>) -> Seq<char> {
    from
        + "setpts=PTS-STARTPTS+"@
        + start
        + "/TB"@
        + tag
}

pub fn timed_filter_text(from: &str, start: &str, tag: &str) -> (text: String)
    ensures
        text@ == timed_filter(from@, start@, tag@),
{
    let mut text = owned(from);
    text.append("setpts=PTS-STARTPTS+");
    text.append(start);
    text.append("/TB");
    text.append(tag);
    text
}

/// A picture over another for some time.
pub open spec fn over_filter(below: Seq<char>, above: Seq<char>, start: Seq<char>, end: Seq<char>, tag: Seq<char>) -> Seq<char> {
    below
        + above
        + "overlay=0:0:format=auto:eof_action=pass:enable='between(t,"@
        + start
        + ","@
        + end
        + ")'"@
        + tag
}

pub fn over_filter_text(below: &str, above: &str, start: &str, end: &str, tag: &str) -> (text: String)
    ensures
        text@ == over_filter(below@, above@, start@, end@, tag@),
{
    let mut text = owned(below);
    text.append(above);
    text.append("overlay=0:0:format=auto:eof_action=pass:enable='between(t,");
    text.append(start);
    text.append(",");
    text.append(end);
    text.append(")'");
    text.append(tag);
    text
}

/// A dissolve: both pieces, the clips it is made of, and when it is.
pub ghost struct Dissolve {
    pub left: ExportClipView,
    pub right: ExportClipView,
    pub start: int,
    pub length: int,
}

/// The dissolve between two clips; the second one starts at `center`.
#[verifier::opaque]
pub open spec fn dissolve_of(
    left: ClipView,
    right: ClipView,
    cut: DissolveCutView,
    over: bool,
    center: int,
) -> Dissolve {
    let length = dissolve_length(left, right, over, cut.wanted);
    let half = length / 2;
    let start = monus(center, half);
    Dissolve {
        left: ExportClipView {
            clip: left.segment(
                time_sum(left.source_in, monus(left.duration, half)),
                start,
                length,
                true,
            ),
            words: cut.left,
        },
        right: ExportClipView {
            clip: right.segment(monus(right.source_in, half), start, length, false),
            words: cut.right,
        },
        start,
        length,
    }
}

impl LookView {
    /// The row with a dissolve between the clips at `i` and behind it: both pieces are
    /// drawn, blended, brought to their time and laid over the row.
    #[verifier::opaque]
    pub open spec fn with_dissolve(
        self,
        parts: Seq<Seq<char>>,
        below: Seq<char>,
        base: Seq<char>,
        over: bool,
        d: Dissolve,
        inputs: (int, int),
        i: int,
    ) -> Seq<Seq<char>> {
        let mode = (LaneKind { label: base, over }).mode();
        let left = DrawingView {
            input: inputs.0,
            prefix: side_label(base, "l"@),
            index: i,
            mode,
            include_dissolve: false,
        };
        let right = DrawingView {
            input: inputs.1,
            prefix: side_label(base, "r"@),
            index: i,
            mode,
            include_dissolve: false,
        };
        let blend = step_tag(base, "blend"@, decimal(i));
        let timed = step_tag(base, "timed"@, decimal(i));
        self.drawn(d.right, right, self.drawn(d.left, left, parts)).push(
            blend_filter(drawn_tag(left), drawn_tag(right), fixed(d.length), blend),
        ).push(timed_filter(blend, fixed(d.start), timed)).push(
            over_filter(
                below,
                timed,
                fixed(d.start),
                fixed(time_sum(d.start, d.length)),
                step_tag(base, "comp"@, decimal(i)),
            ),
        )
    }

    /// The row with the dissolves at its first `n` cuts, and its name then.
    pub open spec fn with_dissolves(
        self,
        parts: Seq<Seq<char>>,
        tag: Seq<char>,
        base: Seq<char>,
        over: bool,
        lane: ExportLaneView,
        inputs: Seq<int>,
        centers: Seq<int>,
        n: int,
    ) -> (Seq<Seq<char>>, Seq<char>)
        decreases n,
    {
        if n <= 0 {
            (parts, tag)
        } else {
            let (front, below) = self.with_dissolves(
                parts,
                tag,
                base,
                over,
                lane,
                inputs,
                centers,
                n - 1,
            );
            let left = lane.clips[n - 1].clip;
            let right = lane.clips[n].clip;
            if dissolves(left, right, over) {
                (
                    self.with_dissolve(
                        front,
                        below,
                        base,
                        over,
                        dissolve_of(left, right, lane.cuts[n - 1], over, centers[n]),
                        (inputs[n - 1], inputs[n]),
                        n - 1,
                    ),
                    step_tag(base, "comp"@, decimal(n - 1)),
                )
            } else {
                (front, below)
            }
        }
    }
}

impl DissolveCutView {
    /// Whether there are words for every piece of the two clips: the left one without its
    /// keyframes, the right one with them.
    pub open spec fn tells(self, left: ClipView, right: ClipView) -> bool {
        &&& forall|source: int, start: int, length: int|
            self.left.tells(#[trigger] left.segment(source, start, length, true))
        &&& forall|source: int, start: int, length: int|
            self.right.tells(#[trigger] right.segment(source, start, length, false))
    }
}

impl ExportLaneView {
    /// How many cuts there are.
    pub open spec fn cut_count(self) -> int {
        monus(self.clips.len() as int, 1)
    }

    /// Whether each clip has its words, and each cut those of the pieces that dissolve there.
    pub open spec fn told(self) -> bool {
        &&& self.cuts.len() == self.cut_count()
        &&& forall|i: int|
            0 <= i < self.clips.len() ==> (#[trigger] self.clips[i]).words.tells(
                self.clips[i].clip,
            )
        &&& forall|i: int|
            0 <= i < self.cuts.len() ==> (#[trigger] self.cuts[i]).tells(
                self.clips[i].clip,
                self.clips[i + 1].clip,
            )
    }
}

fn lay_dissolve(
    parts: &mut Vec<String>,
    below: &str,
    base: &str,
    over: bool,
    left: &Clip,
    right: &Clip,
    cut: &DissolveCut,
    center: Duration,
    left_input: usize,
    right_input: usize,
    i: usize,
    look: &ExportLook,
) -> (tag: String)
    requires
        cut@.tells(left@, right@),
        look@.told(),
    ensures
        views(final(parts)@) == look@.with_dissolve(
            views(old(parts)@),
            below@,
            base@,
            over,
            dissolve_of(left@, right@, cut@, over, center@),
            (left_input as int, right_input as int),
            i as int,
        ),
        tag@ == step_tag(base@, "comp"@, decimal(i as int)),
{
    reveal(LookView::with_dissolve);
    reveal(dissolve_of);
    let length = length_of_dissolve(left, right, over, cut.wanted);
    let half = Duration { nanos: length.nanos / 2 };
    let start = center.saturating_sub(half);
    let left_src = left.source_in.saturating_add(left.duration.saturating_sub(half));
    let right_src = right.source_in.saturating_sub(half);
    let index = number_text(i);
    let mode = mode_of(over);
    let left_label = side_label_text(base, "l");
    let right_label = side_label_text(base, "r");
    let left_piece = clip_segment_for_export(left, left_src, start, length, true);
    let left_tag = build_single_clip_video_filter(
        parts,
        &left_piece,
        &cut.left,
        Drawing {
            input: left_input,
            prefix: left_label.as_str(),
            index: i,
            mode,
            include_dissolve: false,
        },
        look,
    );
    let right_piece = clip_segment_for_export(right, right_src, start, length, false);
    let right_tag = build_single_clip_video_filter(
        parts,
        &right_piece,
        &cut.right,
        Drawing {
            input: right_input,
            prefix: right_label.as_str(),
            index: i,
            mode,
            include_dissolve: false,
        },
        look,
    );
    let blend = step_tag_text(base, "blend", index.as_str());
    let timed = step_tag_text(base, "timed", index.as_str());
    let tag = step_tag_text(base, "comp", index.as_str());
    push_text(
        parts,
        blend_filter_text(
            left_tag.as_str(),
            right_tag.as_str(),
            fixed_text(length).as_str(),
            blend.as_str(),
        ).as_str(),
    );
    push_text(
        parts,
        timed_filter_text(blend.as_str(), fixed_text(start).as_str(), timed.as_str()).as_str(),
    );
    push_text(
        parts,
        over_filter_text(
            below,
            timed.as_str(),
            fixed_text(start).as_str(),
            fixed_text(start.saturating_add(length)).as_str(),
            tag.as_str(),
        ).as_str(),
    );
    tag
}


fn lay_dissolves(
    parts: &mut Vec<String>,
    tag: String,
    base: &str,
    over: bool,
    lane: &ExportLane,
    inputs: &Vec<usize>,
    centers: &Vec<Duration>,
    look: &ExportLook,
) -> (out: String)
    requires
        inputs.len() == lane.clips.len(),
        centers.len() == lane.clips.len(),
        lane@.told(),
        look@.told(),
    ensures
        (views(final(parts)@), out@) == look@.with_dissolves(
            views(old(parts)@),
            tag@,
            base@,
            over,
            lane@,
            numbers(inputs@),
            times(centers@),
            lane@.cut_count(),
        ),
{
    let ghost before = views(parts@);
    let ghost first_tag = tag@;
    if lane.clips.len() == 0 {
        return tag;
    }
    let n: usize = lane.clips.len() - 1;
    let mut below = tag;
    let mut i: usize = 0;
    while i < n
        invariant
            i <= n,
            n == lane.clips.len() - 1,
            n == lane.cuts.len(),
            lane@.told(),
            look@.told(),
            inputs.len() == lane.clips.len(),
            centers.len() == lane.clips.len(),
            (views(parts@), below@) == look@.with_dissolves(
                before,
                first_tag,
                base@,
                over,
                lane@,
                numbers(inputs@),
                times(centers@),
                i as int,
            ),
        decreases n - i,
    {
        let left = &lane.clips[i].clip;
        let right = &lane.clips[i + 1].clip;
        assert(lane@.clips[i as int].clip == left@);
        assert(lane@.clips[i + 1].clip == right@);
        assert(lane@.cuts[i as int] == lane.cuts@[i as int]@);
        if has_dissolve(left, right, over) {
            below =
            lay_dissolve(
                parts,
                below.as_str(),
                base,
                over,
                left,
                right,
                &lane.cuts[i],
                centers[i + 1],
                inputs[i],
                inputs[i + 1],
                i,
                look,
            );
        }
        i += 1;
    }
    below
}

// ---------------------------------------------------------------------------
// The picture
// ---------------------------------------------------------------------------

/// The base of the names for a row over others.
pub open spec fn base_layer(i: Seq<char>) -> Seq<char> {
    "ov"@
        + i
}

pub fn base_layer_text(i: &str) -> (text: String)
    ensures
        text@ == base_layer(i@),
{
    let mut text = owned("ov");
    text.append(i);
    text
}

/// The label of a row over others.
pub open spec fn lane_label(i: Seq<char>) -> Seq<char> {
    "overlay_v"@
        + i
}

pub fn lane_label_text(i: &str) -> (text: String)
    ensures
        text@ == lane_label(i@),
{
    let mut text = owned("overlay_v");
    text.append(i);
    text
}

/// The name of a row over others.
pub open spec fn layer_tag(i: Seq<char>) -> Seq<char> {
    "[v_layer_"@
        + i
        + "]"@
}

pub fn layer_tag_text(i: &str) -> (text: String)
    ensures
        text@ == layer_tag(i@),
{
    let mut text = owned("[v_layer_");
    text.append(i);
    text.append("]");
    text
}

/// The name of the picture with one more row.
pub open spec fn composed_tag(i: Seq<char>) -> Seq<char> {
    "[v_comp_"@
        + i
        + "]"@
}

pub fn composed_tag_text(i: &str) -> (text: String)
    ensures
        text@ == composed_tag(i@),
{
    let mut text = owned("[v_comp_");
    text.append(i);
    text.append("]");
    text
}

/// A picture over another.
pub open spec fn overlay_filter(below: Seq<char>, above: Seq<char>, tag: Seq<char>) -> Seq<char> {
    below
        + above
        + "overlay=0:0:format=auto"@
        + tag
}

pub fn overlay_filter_text(below: &str, above: &str, tag: &str) -> (text: String)
    ensures
        text@ == overlay_filter(below@, above@, tag@),
{
    let mut text = owned(below);
    text.append(above);
    text.append("overlay=0:0:format=auto");
    text.append(tag);
    text
}

/// The times at which clips start.
pub open spec fn own_starts(clips: Seq<ExportClipView>) -> Seq<int> {
    clips.map_values(|e: ExportClipView| e.clip.start)
}

impl LookView {
    /// The main row, and the name of its picture. A dissolve is where the second clip
    /// starts by itself. Without clips it is black.
    #[verifier::opaque]
    pub open spec fn main_row(
        self,
        parts: Seq<Seq<char>>,
        lane: ExportLaneView,
        inputs: Seq<int>,
        length: int,
    ) -> (Seq<Seq<char>>, Seq<char>) {
        let kind = LaneKind { label: "v1"@, over: false };
        if lane.clips.len() == 0 {
            (parts.push(self.gap("black"@, length, "[v_base]"@)), "[v_base]"@)
        } else {
            let run = self.lane_run(parts, kind, lane.clips, inputs, lane.clips.len() as int);
            self.with_dissolves(
                self.lane_joined(self.with_end(run, kind, length), "[v_base]"@),
                "[v_base]"@,
                "v1"@,
                false,
                lane,
                inputs,
                own_starts(lane.clips),
                lane.cut_count(),
            )
        }
    }

    /// A row over the others, laid over what is below it. A dissolve is where the second
    /// clip comes in the row.
    #[verifier::opaque]
    pub open spec fn over_row(
        self,
        before: (Seq<Seq<char>>, Seq<char>),
        lane: ExportLaneView,
        inputs: Seq<int>,
        length: int,
        i: int,
    ) -> (Seq<Seq<char>>, Seq<char>) {
        let kind = LaneKind { label: lane_label(decimal(i)), over: true };
        if lane.clips.len() == 0 {
            before
        } else {
            let tag = layer_tag(decimal(i));
            let run = self.lane_run(before.0, kind, lane.clips, inputs, lane.clips.len() as int);
            let (parts, row) = self.with_dissolves(
                self.lane_joined(self.with_end(run, kind, length), tag),
                tag,
                base_layer(decimal(i)),
                true,
                lane,
                inputs,
                run.starts,
                lane.cut_count(),
            );
            let next = composed_tag(decimal(i));
            (parts.push(overlay_filter(before.1, row, next)), next)
        }
    }

    /// The first `n` rows over the main one.
    pub open spec fn over_rows(
        self,
        before: (Seq<Seq<char>>, Seq<char>),
        lanes: Seq<ExportLaneView>,
        inputs: Seq<Seq<int>>,
        length: int,
        n: int,
    ) -> (Seq<Seq<char>>, Seq<char>)
        decreases n,
    {
        if n <= 0 {
            before
        } else {
            self.over_row(
                self.over_rows(before, lanes, inputs, length, n - 1),
                lanes[n - 1],
                inputs[n - 1],
                length,
                n - 1,
            )
        }
    }
}

fn lay_main_row(
    parts: &mut Vec<String>,
    lane: &ExportLane,
    inputs: &Vec<usize>,
    length: Duration,
    look: &ExportLook,
) -> (tag: String)
    requires
        inputs.len() == lane.clips.len(),
        lane.clips.len() < usize::MAX / 2 - 1,
        lane@.told(),
        look@.told(),
    ensures
        (views(final(parts)@), tag@) == look@.main_row(
            views(old(parts)@),
            lane@,
            numbers(inputs@),
            length@,
        ),
{
    reveal(LookView::main_row);
    if lane.clips.len() == 0 {
        push_text(parts, gap_text(look, "black", length, "[v_base]").as_str());
        return owned("[v_base]");
    }
    let _ = lay_lane(parts, lane, inputs, "v1", false, length, "[v_base]", look);
    let mut centers: Vec<Duration> = Vec::new();
    let mut i: usize = 0;
    while i < lane.clips.len()
        invariant
            i <= lane.clips.len(),
            centers.len() == i,
            forall|k: int| 0 <= k < i ==> centers@[k]@ == (#[trigger] lane@.clips[k]).clip.start,
        decreases lane.clips.len() - i,
    {
        centers.push(lane.clips[i].clip.start);
        i += 1;
    }
    assert(times(centers@) =~= own_starts(lane@.clips));
    lay_dissolves(parts, owned("[v_base]"), "v1", false, lane, inputs, &centers, look)
}

proof fn lemma_starts_len(
    look: LookView,
    parts: Seq<Seq<char>>,
    kind: LaneKind,
    clips: Seq<ExportClipView>,
    inputs: Seq<int>,
    n: int,
)
    requires
        0 <= n,
    ensures
        look.lane_run(parts, kind, clips, inputs, n).starts.len() == n,
    decreases n,
{
    reveal(LookView::with_clip);
    if n > 0 {
        lemma_starts_len(look, parts, kind, clips, inputs, n - 1);
    }
}

fn lay_over_row(
    parts: &mut Vec<String>,
    below: String,
    lane: &ExportLane,
    inputs: &Vec<usize>,
    length: Duration,
    i: usize,
    look: &ExportLook,
) -> (tag: String)
    requires
        inputs.len() == lane.clips.len(),
        lane.clips.len() < usize::MAX / 2 - 1,
        lane@.told(),
        look@.told(),
    ensures
        (views(final(parts)@), tag@) == look@.over_row(
            (views(old(parts)@), below@),
            lane@,
            numbers(inputs@),
            length@,
            i as int,
        ),
{
    reveal(LookView::over_row);
    if lane.clips.len() == 0 {
        return below;
    }
    let index = number_text(i);
    let label = lane_label_text(index.as_str());
    let row = layer_tag_text(index.as_str());
    proof {
        lemma_starts_len(
            look@,
            views(parts@),
            LaneKind { label: label@, over: true },
            lane@.clips,
            numbers(inputs@),
            lane.clips.len() as int,
        );
    }
    let starts = lay_lane(
        parts,
        lane,
        inputs,
        label.as_str(),
        true,
        length,
        row.as_str(),
        look,
    );
    assert(starts.len() == times(starts@).len());
    let base = base_layer_text(index.as_str());
    let laid = lay_dissolves(parts, row, base.as_str(), true, lane, inputs, &starts, look);
    let next = composed_tag_text(index.as_str());
    push_text(
        parts,
        overlay_filter_text(below.as_str(), laid.as_str(), next.as_str()).as_str(),
    );
    next
}

fn lay_over_rows(
    parts: &mut Vec<String>,
    below: String,
    lanes: &Vec<ExportLane>,
    inputs: &Vec<Vec<usize>>,
    length: Duration,
    look: &ExportLook,
) -> (tag: String)
    requires
        inputs.len() == lanes.len(),
        forall|k: int|
            0 <= k < lanes.len() ==> (#[trigger] inputs@[k]).len() == lanes@[k].clips.len(),
        forall|k: int| 0 <= k < lanes.len() ==> (#[trigger] lanes@[k]).clips.len() < usize::MAX / 2
            - 1,
        forall|k: int| 0 <= k < lanes.len() ==> (#[trigger] lanes@[k])@.told(),
        look@.told(),
    ensures
        (views(final(parts)@), tag@) == look@.over_rows(
            (views(old(parts)@), below@),
            views(lanes@),
            number_lists(inputs@),
            length@,
            lanes.len() as int,
        ),
{
    let ghost before = (views(parts@), below@);
    let mut tag = below;
    let mut i: usize = 0;
    while i < lanes.len()
        invariant
            i <= lanes.len(),
            inputs.len() == lanes.len(),
            forall|k: int|
                0 <= k < lanes.len() ==> (#[trigger] inputs@[k]).len() == lanes@[k].clips.len(),
            forall|k: int|
                0 <= k < lanes.len() ==> (#[trigger] lanes@[k]).clips.len() < usize::MAX / 2 - 1,
            forall|k: int| 0 <= k < lanes.len() ==> (#[trigger] lanes@[k])@.told(),
            look@.told(),
            (views(parts@), tag@) == look@.over_rows(
                before,
                views(lanes@),
                number_lists(inputs@),
                length@,
                i as int,
            ),
        decreases lanes.len() - i,
    {
        assert(inputs@[i as int].len() == lanes@[i as int].clips.len());
        tag = lay_over_row(parts, tag, &lanes[i], &inputs[i], length, i, look);
        assert(views(lanes@)[i as int] == lanes@[i as int]@);
        assert(number_lists(inputs@)[i as int] == numbers(inputs@[i as int]@));
        i += 1;
    }
    tag
}

// ---------------------------------------------------------------------------
// Subtitles
// ---------------------------------------------------------------------------

/// The name of a subtitle.
pub open spec fn subtitle_layer(i: Seq<char>) -> Seq<char> {
    "[v_sub_layer_"@
        + i
        + "]"@
}

pub fn subtitle_layer_text(i: &str) -> (text: String)
    ensures
        text@ == subtitle_layer(i@),
{
    let mut text = owned("[v_sub_layer_");
    text.append(i);
    text.append("]");
    text
}

/// The name of the picture with one more subtitle.
pub open spec fn subtitle_comp(i: Seq<char>) -> Seq<char> {
    "[v_sub_comp_"@
        + i
        + "]"@
}

pub fn subtitle_comp_text(i: &str) -> (text: String)
    ensures
        text@ == subtitle_comp(i@),
{
    let mut text = owned("[v_sub_comp_");
    text.append(i);
    text.append("]");
    text
}

/// A subtitle.
pub open spec fn subtitle_input(n: Seq<char>, tag: Seq<char>) -> Seq<char> {
    "["@
        + n
        + ":v]format=bgra"@
        + tag
}

pub fn subtitle_input_text(n: &str, tag: &str) -> (text: String)
    ensures
        text@ == subtitle_input(n@, tag@),
{
    let mut text = owned("[");
    text.append(n);
    text.append(":v]format=bgra");
    text.append(tag);
    text
}

/// A subtitle over the picture for some time.
pub open spec fn subtitle_filter(below: Seq<char>, above: Seq<char>, start: Seq<char>, end: Seq<char>, tag: Seq<char>) -> Seq<char> {
    below
        + above
        + "overlay=0:0:format=auto:enable='between(t,"@
        + start
        + ","@
        + end
        + ")'"@
        + tag
}

pub fn subtitle_filter_text(below: &str, above: &str, start: &str, end: &str, tag: &str) -> (text: String)
    ensures
        text@ == subtitle_filter(below@, above@, start@, end@, tag@),
{
    let mut text = owned(below);
    text.append(above);
    text.append("overlay=0:0:format=auto:enable='between(t,");
    text.append(start);
    text.append(",");
    text.append(end);
    text.append(")'");
    text.append(tag);
    text
}

/// The picture with the first `n` subtitles; their inputs follow those with the numbers
/// below `first`.
pub open spec fn with_subtitles(
    before: (Seq<Seq<char>>, Seq<char>),
    subtitles: Seq<SubtitleOverlayView>,
    first: int,
    n: int,
) -> (Seq<Seq<char>>, Seq<char>)
    decreases n,
{
    if n <= 0 {
        before
    } else {
        let (parts, below) = with_subtitles(before, subtitles, first, n - 1);
        let layer = subtitle_layer(decimal(n - 1));
        let next = subtitle_comp(decimal(n - 1));
        let s = subtitles[n - 1];
        (
            parts.push(subtitle_input(decimal(first + n - 1), layer)).push(
                subtitle_filter(below, layer, s.start, s.end, next),
            ),
            next,
        )
    }
}

fn lay_subtitles(
    parts: &mut Vec<String>,
    below: String,
    subtitles: &Vec<SubtitleOverlay>,
    first: usize,
) -> (tag: String)
    requires
        first + subtitles.len() <= usize::MAX,
    ensures
        (views(final(parts)@), tag@) == with_subtitles(
            (views(old(parts)@), below@),
            views(subtitles@),
            first as int,
            subtitles.len() as int,
        ),
{
    let ghost before = (views(parts@), below@);
    let mut tag = below;
    let mut i: usize = 0;
    while i < subtitles.len()
        invariant
            i <= subtitles.len(),
            first + subtitles.len() <= usize::MAX,
            (views(parts@), tag@) == with_subtitles(
                before,
                views(subtitles@),
                first as int,
                i as int,
            ),
        decreases subtitles.len() - i,
    {
        let index = number_text(i);
        let layer = subtitle_layer_text(index.as_str());
        let next = subtitle_comp_text(index.as_str());
        push_text(
            parts,
            subtitle_input_text(number_text(first + i).as_str(), layer.as_str()).as_str(),
        );
        push_text(
            parts,
            subtitle_filter_text(
                tag.as_str(),
                layer.as_str(),
                subtitles[i].start.as_str(),
                subtitles[i].end.as_str(),
                next.as_str(),
            ).as_str(),
        );
        tag = next;
        i += 1;
    }
    tag
}

// ---------------------------------------------------------------------------
// Sound
// ---------------------------------------------------------------------------

/// Silence.
pub open spec fn silence(length: Seq<char>, tag: Seq<char>) -> Seq<char> {
    "anullsrc=channel_layout=stereo:sample_rate=48000:d="@
        + length
        + tag
}

pub fn silence_text(length: &str, tag: &str) -> (text: String)
    ensures
        text@ == silence(length@, tag@),
{
    let mut text = owned("anullsrc=channel_layout=stereo:sample_rate=48000:d=");
    text.append(length);
    text.append(tag);
    text
}

/// The label of a row of sounds.
pub open spec fn sound_label(i: Seq<char>) -> Seq<char> {
    "audio_"@
        + i
}

pub fn sound_label_text(i: &str) -> (text: String)
    ensures
        text@ == sound_label(i@),
{
    let mut text = owned("audio_");
    text.append(i);
    text
}

/// A piece of a sound.
pub open spec fn sound_piece(n: Seq<char>, start: Seq<char>, end: Seq<char>, tag: Seq<char>) -> Seq<char> {
    "["@
        + n
        + ":a:0]aresample=48000,atrim=start="@
        + start
        + ":end="@
        + end
        + ",asetpts=PTS-STARTPTS"@
        + tag
}

pub fn sound_piece_text(n: &str, start: &str, end: &str, tag: &str) -> (text: String)
    ensures
        text@ == sound_piece(n@, start@, end@, tag@),
{
    let mut text = owned("[");
    text.append(n);
    text.append(":a:0]aresample=48000,atrim=start=");
    text.append(start);
    text.append(":end=");
    text.append(end);
    text.append(",asetpts=PTS-STARTPTS");
    text.append(tag);
    text
}

/// A sound made louder or softer.
pub open spec fn volume_filter(from: Seq<char>, volume: Seq<char>, tag: Seq<char>) -> Seq<char> {
    from
        + "volume="@
        + volume
        + tag
}

pub fn volume_filter_text(from: &str, volume: &str, tag: &str) -> (text: String)
    ensures
        text@ == volume_filter(from@, volume@, tag@),
{
    let mut text = owned(from);
    text.append("volume=");
    text.append(volume);
    text.append(tag);
    text
}

/// A sound as it is.
pub open spec fn unchanged_filter(from: Seq<char>, tag: Seq<char>) -> Seq<char> {
    from
        + "anull"@
        + tag
}

pub fn unchanged_filter_text(from: &str, tag: &str) -> (text: String)
    ensures
        text@ == unchanged_filter(from@, tag@),
{
    let mut text = owned(from);
    text.append("anull");
    text.append(tag);
    text
}

/// Sounds one behind the other.
pub open spec fn sounds_joined(list: Seq<char>, count: Seq<char>, tag: Seq<char>) -> Seq<char> {
    list
        + "concat=n="@
        + count
        + ":v=0:a=1"@
        + tag
}

pub fn sounds_joined_text(list: &str, count: &str, tag: &str) -> (text: String)
    ensures
        text@ == sounds_joined(list@, count@, tag@),
{
    let mut text = owned(list);
    text.append("concat=n=");
    text.append(count);
    text.append(":v=0:a=1");
    text.append(tag);
    text
}

/// The name of a sound.
pub open spec fn sound_tag(label: Seq<char>, what: Seq<char>, i: Seq<char>) -> Seq<char> {
    "["@
        + label
        + "_"@
        + what
        + "_"@
        + i
        + "]"@
}

pub fn sound_tag_text(label: &str, what: &str, i: &str) -> (text: String)
    ensures
        text@ == sound_tag(label@, what@, i@),
{
    let mut text = owned("[");
    text.append(label);
    text.append("_");
    text.append(what);
    text.append("_");
    text.append(i);
    text.append("]");
    text
}

/// The name of a row of sounds.
pub open spec fn sound_row_tag(i: Seq<char>) -> Seq<char> {
    "[a_track_"@
        + i
        + "]"@
}

pub fn sound_row_tag_text(i: &str) -> (text: String)
    ensures
        text@ == sound_row_tag(i@),
{
    let mut text = owned("[a_track_");
    text.append(i);
    text.append("]");
    text
}

/// The name of a row of sounds with its volume.
pub open spec fn sound_gain_tag(i: Seq<char>) -> Seq<char> {
    "[a_track_gain_"@
        + i
        + "]"@
}

pub fn sound_gain_tag_text(i: &str) -> (text: String)
    ensures
        text@ == sound_gain_tag(i@),
{
    let mut text = owned("[a_track_gain_");
    text.append(i);
    text.append("]");
    text
}

/// The shortest silence that is written, a thousandth of a second.
pub const SHORTEST_SILENCE: u128 = 1_000_000;

/// How far a row of sounds has been laid out.
pub ghost struct SoundRun {
    pub parts: Seq<Seq<char>>,
    pub names: Seq<char>,
    pub count: int,
    pub cursor: int,
}

/// The filters of one sound: its piece of the file with its volume, or silence of the same
/// length where the file has no sound.
#[verifier::opaque]
pub open spec fn sound_parts(
    parts: Seq<Seq<char>>,
    s: ExportSoundView,
    label: Seq<char>,
    input: int,
    i: int,
) -> Seq<Seq<char>> {
    let tag = sound_tag(label, "clip"@, decimal(i));
    if s.has_audio {
        let raw = sound_tag(label, "clip_raw"@, decimal(i));
        let front = parts.push(
            sound_piece(
                decimal(input),
                fixed(s.clip.source_in),
                fixed(time_sum(s.clip.source_in, s.clip.duration)),
                raw,
            ),
        );
        match s.volume {
            Some(v) => front.push(volume_filter(raw, v, tag)),
            None => front.push(unchanged_filter(raw, tag)),
        }
    } else {
        parts.push(silence(fixed(greatest(s.clip.duration, SHORTEST_SILENCE as int)), tag))
    }
}

/// The row with one more sound, behind silence up to where it starts.
#[verifier::opaque]
pub open spec fn with_sound(
    run: SoundRun,
    s: ExportSoundView,
    label: Seq<char>,
    input: int,
    i: int,
) -> SoundRun {
    let gap = sound_tag(label, "gap"@, decimal(i));
    let waits = s.clip.start > run.cursor;
    let front = if waits {
        run.parts.push(silence(full(monus(s.clip.start, run.cursor)), gap))
    } else {
        run.parts
    };
    let names = if waits {
        run.names + gap
    } else {
        run.names
    };
    SoundRun {
        parts: sound_parts(front, s, label, input, i),
        names: names + sound_tag(label, "clip"@, decimal(i)),
        count: run.count + if waits {
            2int
        } else {
            1
        },
        cursor: time_sum(s.clip.start, s.clip.duration),
    }
}

/// The row with its first `n` sounds.
pub open spec fn sound_run(
    parts: Seq<Seq<char>>,
    sounds: Seq<ExportSoundView>,
    label: Seq<char>,
    inputs: Seq<int>,
    n: int,
) -> SoundRun
    decreases n,
{
    if n <= 0 {
        SoundRun { parts, names: ""@, count: 0, cursor: 0 }
    } else {
        with_sound(
            sound_run(parts, sounds, label, inputs, n - 1),
            sounds[n - 1],
            label,
            inputs[n - 1],
            n - 1,
        )
    }
}

/// A row of sounds, and its name among those that are mixed. An empty row has none.
#[verifier::opaque]
pub open spec fn sound_row(
    before: (Seq<Seq<char>>, Seq<Seq<char>>),
    lane: ExportAudioLaneView,
    inputs: Seq<int>,
    i: int,
) -> (Seq<Seq<char>>, Seq<Seq<char>>) {
    if lane.sounds.len() == 0 {
        before
    } else {
        let run = sound_run(
            before.0,
            lane.sounds,
            sound_label(decimal(i)),
            inputs,
            lane.sounds.len() as int,
        );
        let tag = sound_row_tag(decimal(i));
        let parts = run.parts.push(sounds_joined(run.names, decimal(run.count), tag));
        match lane.volume {
            Some(v) => {
                let loud = sound_gain_tag(decimal(i));
                (parts.push(volume_filter(tag, v, loud)), before.1.push(loud))
            },
            None => (parts, before.1.push(tag)),
        }
    }
}

/// The first `n` rows of sounds.
pub open spec fn sound_rows(
    parts: Seq<Seq<char>>,
    lanes: Seq<ExportAudioLaneView>,
    inputs: Seq<Seq<int>>,
    n: int,
) -> (Seq<Seq<char>>, Seq<Seq<char>>)
    decreases n,
{
    if n <= 0 {
        (parts, seq![])
    } else {
        sound_row(sound_rows(parts, lanes, inputs, n - 1), lanes[n - 1], inputs[n - 1], n - 1)
    }
}

fn lay_sound_parts(parts: &mut Vec<String>, s: &ExportSound, label: &str, input: usize, i: usize)
    ensures
        views(final(parts)@) == sound_parts(views(old(parts)@), s@, label@, input as int, i as int),
{
    reveal(sound_parts);
    let index = number_text(i);
    let tag = sound_tag_text(label, "clip", index.as_str());
    if s.has_audio {
        let raw = sound_tag_text(label, "clip_raw", index.as_str());
        let end = s.clip.source_in.saturating_add(s.clip.duration);
        push_text(
            parts,
            sound_piece_text(
                number_text(input).as_str(),
                fixed_text(s.clip.source_in).as_str(),
                fixed_text(end).as_str(),
                raw.as_str(),
            ).as_str(),
        );
        match &s.volume {
            Some(v) => push_text(
                parts,
                volume_filter_text(raw.as_str(), v.as_str(), tag.as_str()).as_str(),
            ),
            None => push_text(parts, unchanged_filter_text(raw.as_str(), tag.as_str()).as_str()),
        }
    } else {
        let length = s.clip.duration.max(Duration { nanos: SHORTEST_SILENCE });
        push_text(parts, silence_text(fixed_text(length).as_str(), tag.as_str()).as_str());
    }
}

/// How far a row of sounds has been laid out.
struct SoundRow {
    names: String,
    count: usize,
    cursor: Duration,
}

impl SoundRow {
    spec fn run(&self, parts: Seq<Seq<char>>) -> SoundRun {
        SoundRun { parts, names: self.names@, count: self.count as int, cursor: self.cursor@ }
    }
}

fn lay_sound(
    parts: &mut Vec<String>,
    row: &mut SoundRow,
    s: &ExportSound,
    label: &str,
    input: usize,
    i: usize,
)
    requires
        old(row).count < usize::MAX - 1,
    ensures
        final(row).run(views(final(parts)@)) == with_sound(
            old(row).run(views(old(parts)@)),
            s@,
            label@,
            input as int,
            i as int,
        ),
        final(row).count <= old(row).count + 2,
{
    reveal(with_sound);
    let index = number_text(i);
    if s.clip.start.nanos > row.cursor.nanos {
        let gap = sound_tag_text(label, "gap", index.as_str());
        let wait = s.clip.start.saturating_sub(row.cursor);
        push_text(parts, silence_text(full_text(wait).as_str(), gap.as_str()).as_str());
        row.names.append(gap.as_str());
        row.count += 1;
    }
    lay_sound_parts(parts, s, label, input, i);
    row.names.append(sound_tag_text(label, "clip", index.as_str()).as_str());
    row.count += 1;
    row.cursor = s.clip.start.saturating_add(s.clip.duration);
}

fn lay_sound_row(
    parts: &mut Vec<String>,
    mixed: &mut Vec<String>,
    lane: &ExportAudioLane,
    inputs: &Vec<usize>,
    i: usize,
)
    requires
        inputs.len() == lane.sounds.len(),
        lane.sounds.len() < usize::MAX / 2 - 1,
    ensures
        (views(final(parts)@), views(final(mixed)@)) == sound_row(
            (views(old(parts)@), views(old(mixed)@)),
            lane@,
            numbers(inputs@),
            i as int,
        ),
{
    reveal(sound_row);
    if lane.sounds.len() == 0 {
        return;
    }
    let ghost before = views(parts@);
    let index = number_text(i);
    let label = sound_label_text(index.as_str());
    let mut row = SoundRow { names: owned(""), count: 0, cursor: Duration::zero() };
    let mut k: usize = 0;
    while k < lane.sounds.len()
        invariant
            k <= lane.sounds.len(),
            inputs.len() == lane.sounds.len(),
            lane.sounds.len() < usize::MAX / 2 - 1,
            row.count <= 2 * k,
            label@ == sound_label(decimal(i as int)),
            row.run(views(parts@)) == sound_run(
                before,
                lane@.sounds,
                label@,
                numbers(inputs@),
                k as int,
            ),
        decreases lane.sounds.len() - k,
    {
        lay_sound(parts, &mut row, &lane.sounds[k], label.as_str(), inputs[k], k);
        k += 1;
    }
    let tag = sound_row_tag_text(index.as_str());
    push_text(
        parts,
        sounds_joined_text(
            row.names.as_str(),
            number_text(row.count).as_str(),
            tag.as_str(),
        ).as_str(),
    );
    match &lane.volume {
        Some(v) => {
            let loud = sound_gain_tag_text(index.as_str());
            push_text(
                parts,
                volume_filter_text(tag.as_str(), v.as_str(), loud.as_str()).as_str(),
            );
            push_text(mixed, loud.as_str());
        },
        None => {
            push_text(mixed, tag.as_str());
        },
    }
}

fn lay_sound_rows(parts: &mut Vec<String>, lanes: &Vec<ExportAudioLane>, inputs: &Vec<
    Vec<usize>,
>) -> (mixed: Vec<String>)
    requires
        inputs.len() == lanes.len(),
        forall|k: int|
            0 <= k < lanes.len() ==> (#[trigger] inputs@[k]).len() == lanes@[k].sounds.len(),
        forall|k: int|
            0 <= k < lanes.len() ==> (#[trigger] lanes@[k]).sounds.len() < usize::MAX / 2 - 1,
    ensures
        (views(final(parts)@), views(mixed@)) == sound_rows(
            views(old(parts)@),
            views(lanes@),
            number_lists(inputs@),
            lanes.len() as int,
        ),
{
    let ghost before = views(parts@);
    let mut mixed: Vec<String> = Vec::new();
    assert(views(mixed@) =~= seq![]);
    let mut i: usize = 0;
    while i < lanes.len()
        invariant
            i <= lanes.len(),
            inputs.len() == lanes.len(),
            forall|k: int|
                0 <= k < lanes.len() ==> (#[trigger] inputs@[k]).len() == lanes@[k].sounds.len(),
            forall|k: int|
                0 <= k < lanes.len() ==> (#[trigger] lanes@[k]).sounds.len() < usize::MAX / 2 - 1,
            (views(parts@), views(mixed@)) == sound_rows(
                before,
                views(lanes@),
                number_lists(inputs@),
                i as int,
            ),
        decreases lanes.len() - i,
    {
        assert(inputs@[i as int].len() == lanes@[i as int].sounds.len());
        lay_sound_row(parts, &mut mixed, &lanes[i], &inputs[i], i);
        assert(views(lanes@)[i as int] == lanes@[i as int]@);
        assert(number_lists(inputs@)[i as int] == numbers(inputs@[i as int]@));
        i += 1;
    }
    mixed
}

/// Texts one behind the other, with another between them.
pub open spec fn joined_by(list: Seq<Seq<char>>, between: Seq<char>) -> Seq<char>
    decreases list.len(),
{
    if list.len() == 0 {
        ""@
    } else if list.len() == 1 {
        list[0]
    } else {
        joined_by(list.drop_last(), between) + between + list.last()
    }
}

/// Texts one behind the other, with another between them.
pub fn join_texts(list: &Vec<String>, between: &str) -> (text: String)
    ensures
        text@ == joined_by(views(list@), between@),
{
    let ghost all = views(list@);
    if list.len() == 0 {
        return owned("");
    }
    let mut text = owned(list[0].as_str());
    let mut i: usize = 1;
    assert(all.take(1).len() == 1);
    while i < list.len()
        invariant
            1 <= i <= list.len(),
            all == views(list@),
            text@ == joined_by(all.take(i as int), between@),
        decreases list.len() - i,
    {
        text.append(between);
        text.append(list[i].as_str());
        assert(all.take(i + 1).drop_last() =~= all.take(i as int));
        assert(all.take(i + 1).last() == all[i as int]);
        i += 1;
    }
    assert(all.take(i as int) =~= all);
    text
}

/// Sounds at the same time.
pub open spec fn mix_filter(list: Seq<char>, count: Seq<char>) -> Seq<char> {
    list
        + "amix=inputs="@
        + count
        + ":duration=longest:dropout_transition=0[aout]"@
}

pub fn mix_filter_text(list: &str, count: &str) -> (text: String)
    ensures
        text@ == mix_filter(list@, count@),
{
    let mut text = owned(list);
    text.append("amix=inputs=");
    text.append(count);
    text.append(":duration=longest:dropout_transition=0[aout]");
    text
}

/// The mix of the sounds: silence as long as the timeline where there is none.
pub open spec fn mixed_sound(mixed: Seq<Seq<char>>, length: int) -> Seq<char> {
    if mixed.len() == 0 {
        silence(fixed(greatest(length, SHORTEST_SILENCE as int)), "[aout]"@)
    } else if mixed.len() == 1 {
        volume_filter(mixed[0], "1.0"@, "[aout]"@)
    } else {
        mix_filter(joined_by(mixed, ""@), decimal(mixed.len() as int))
    }
}

fn mix_sounds(mixed: &Vec<String>, length: Duration) -> (text: String)
    ensures
        text@ == mixed_sound(views(mixed@), length@),
{
    if mixed.len() == 0 {
        let silent = length.max(Duration { nanos: SHORTEST_SILENCE });
        silence_text(fixed_text(silent).as_str(), "[aout]")
    } else if mixed.len() == 1 {
        volume_filter_text(mixed[0].as_str(), "1.0", "[aout]")
    } else {
        mix_filter_text(join_texts(mixed, "").as_str(), number_text(mixed.len()).as_str())
    }
}

// ---------------------------------------------------------------------------
// The command
// ---------------------------------------------------------------------------

/// A part of the picture.
pub open spec fn trim_filter(from: Seq<char>, start: Seq<char>, end: Seq<char>, tag: Seq<char>) -> Seq<char> {
    from
        + "trim=start="@
        + start
        + ":end="@
        + end
        + ",setpts=PTS-STARTPTS"@
        + tag
}

pub fn trim_filter_text(from: &str, start: &str, end: &str, tag: &str) -> (text: String)
    ensures
        text@ == trim_filter(from@, start@, end@, tag@),
{
    let mut text = owned(from);
    text.append("trim=start=");
    text.append(start);
    text.append(":end=");
    text.append(end);
    text.append(",setpts=PTS-STARTPTS");
    text.append(tag);
    text
}

/// A part of the sound.
pub open spec fn sound_trim_filter(from: Seq<char>, start: Seq<char>, end: Seq<char>, tag: Seq<char>) -> Seq<char> {
    from
        + "atrim=start="@
        + start
        + ":end="@
        + end
        + ",asetpts=PTS-STARTPTS"@
        + tag
}

pub fn sound_trim_filter_text(from: &str, start: &str, end: &str, tag: &str) -> (text: String)
    ensures
        text@ == sound_trim_filter(from@, start@, end@, tag@),
{
    let mut text = owned(from);
    text.append("atrim=start=");
    text.append(start);
    text.append(":end=");
    text.append(end);
    text.append(",asetpts=PTS-STARTPTS");
    text.append(tag);
    text
}

/// A picture that goes nowhere.
pub open spec fn discarded(from: Seq<char>) -> Seq<char> {
    from
        + "nullsink"@
}

pub fn discarded_text(from: &str) -> (text: String)
    ensures
        text@ == discarded(from@),
{
    let mut text = owned(from);
    text.append("nullsink");
    text
}

/// The filters of the whole picture and sound, and the names of both.
pub ghost struct Graph {
    pub parts: Seq<Seq<char>>,
    pub picture: Seq<char>,
    pub sound: Seq<char>,
}

impl Graph {
    /// The part of the timeline that is exported.
    pub open spec fn trimmed(self, range: Option<ExportRange>) -> Graph {
        match range {
            Some(r) => Graph {
                parts: self.parts.push(
                    trim_filter(
                        self.picture,
                        fixed(r.start@),
                        fixed(r.end@),
                        "[v_export_trim]"@,
                    ),
                ).push(
                    sound_trim_filter(
                        self.sound,
                        fixed(r.start@),
                        fixed(r.end@),
                        "[a_export_trim]"@,
                    ),
                ),
                picture: "[v_export_trim]"@,
                sound: "[a_export_trim]"@,
            },
            None => self,
        }
    }

    /// With the picture discarded where only the sound is exported.
    pub open spec fn closed(self, audio_only: bool) -> Graph {
        if audio_only {
            Graph { parts: self.parts.push(discarded(self.picture)), ..self }
        } else {
            self
        }
    }
}

impl ContentView {
    /// The files that are read, and the number of each.
    pub open spec fn inputs(self, fps: int) -> (InputsView, Seq<int>, Seq<Seq<int>>, Seq<Seq<int>>) {
        let none = InputsView { args: seq!["-y"@, "-hide_banner"@], keys: seq![] };
        let (one, v1) = picture_inputs(none, self.v1.clips, self.v1.clips.len() as int, fps);
        let (two, overlays) = lanes_inputs(one, self.overlays, self.overlays.len() as int, fps);
        let (three, sounds) = audio_inputs(two, self.sounds, self.sounds.len() as int, fps);
        (three, v1, overlays, sounds)
    }

    /// The filters of the whole picture and sound.
    #[verifier::opaque]
    pub open spec fn graph(self, look: LookView, fps: int) -> Graph {
        let (files, v1, overlays, sounds) = self.inputs(fps);
        let main = look.main_row(seq![], self.v1, v1, self.length);
        let over = look.over_rows(
            main,
            self.overlays,
            overlays,
            self.length,
            self.overlays.len() as int,
        );
        let (pictures, tag) = with_subtitles(
            over,
            self.subtitles,
            files.keys.len() as int,
            self.subtitles.len() as int,
        );
        let (all, mixed) = sound_rows(pictures, self.sounds, sounds, self.sounds.len() as int);
        Graph {
            parts: all.push(mixed_sound(mixed, self.length)),
            picture: tag,
            sound: "[aout]"@,
        }
    }

    /// The whole command: the files, the filters, what is taken of them, the options of the
    /// preset, and the file that is written.
    pub open spec fn command(
        self,
        look: LookView,
        range: Option<ExportRange>,
        preset: ExportPreset,
        settings: ExportSettingsView,
        macos: bool,
        out_path: Seq<char>,
    ) -> Seq<Seq<char>> {
        let fps = settings.rate();
        let graph = self.graph(look, fps).trimmed(range).closed(preset.audio_only());
        let files = subtitle_args(
            self.inputs(fps).0.args,
            self.subtitles,
            self.subtitles.len() as int,
            fps,
            self.length,
        );
        let filtered = files + seq!["-filter_complex"@, joined_by(graph.parts, ";"@)];
        let pictured = if preset.audio_only() {
            filtered
        } else {
            filtered + seq!["-map"@, graph.picture]
        };
        (pictured + seq!["-map"@, graph.sound] + preset.output_args(settings, macos)).push(out_path)
    }

    /// Whether each clip and each cut of the pictures has its words.
    pub open spec fn told(self) -> bool {
        &&& self.v1.told()
        &&& forall|k: int| 0 <= k < self.overlays.len() ==> (#[trigger] self.overlays[k]).told()
    }

    /// Whether no row is so long that its pictures cannot be counted, and there are no more
    /// files than can be counted.
    pub open spec fn countable(self) -> bool {
        let most = usize::MAX / 2 - 1;
        &&& self.v1.clips.len() + picture_count(self.overlays, self.overlays.len() as int)
            + sound_count(self.sounds, self.sounds.len() as int) + self.subtitles.len()
            <= usize::MAX
        &&& self.v1.clips.len() < most
        &&& forall|k: int|
            0 <= k < self.overlays.len() ==> (#[trigger] self.overlays[k]).clips.len() < most
        &&& forall|k: int|
            0 <= k < self.sounds.len() ==> (#[trigger] self.sounds[k]).sounds.len() < most
    }
}

/// The filters of the whole picture and sound.
struct Filters {
    parts: Vec<String>,
    picture: String,
    sound: String,
}

impl Filters {
    spec fn graph(&self) -> Graph {
        Graph { parts: views(self.parts@), picture: self.picture@, sound: self.sound@ }
    }

    fn trim(&mut self, range: Option<ExportRange>)
        ensures
            final(self).graph() == old(self).graph().trimmed(range),
    {
        if let Some(r) = range {
            let start = fixed_text(r.start);
            let end = fixed_text(r.end);
            let picture = trim_filter_text(
                self.picture.as_str(),
                start.as_str(),
                end.as_str(),
                "[v_export_trim]",
            );
            let sound = sound_trim_filter_text(
                self.sound.as_str(),
                start.as_str(),
                end.as_str(),
                "[a_export_trim]",
            );
            push_text(&mut self.parts, picture.as_str());
            push_text(&mut self.parts, sound.as_str());
            self.picture = owned("[v_export_trim]");
            self.sound = owned("[a_export_trim]");
        }
    }

    fn close(&mut self, audio_only: bool)
        ensures
            final(self).graph() == old(self).graph().closed(audio_only),
    {
        if audio_only {
            let text = discarded_text(self.picture.as_str());
            push_text(&mut self.parts, text.as_str());
        }
    }
}

/// The numbers of the files.
struct FileNumbers {
    v1: Vec<usize>,
    overlays: Vec<Vec<usize>>,
    sounds: Vec<Vec<usize>>,
}

fn gather_inputs(content: &ExportContent, fps: u32) -> (r: (Inputs, FileNumbers))
    ensures
        (
            r.0@,
            numbers(r.1.v1@),
            number_lists(r.1.overlays@),
            number_lists(r.1.sounds@),
        ) == content@.inputs(fps as int),
        r.1.v1.len() == content.v1.clips.len(),
        r.1.overlays.len() == content.overlays.len(),
        forall|k: int|
            0 <= k < content.overlays.len() ==> (#[trigger] r.1.overlays@[k]).len()
                == content.overlays@[k].clips.len(),
        r.1.sounds.len() == content.sounds.len(),
        forall|k: int|
            0 <= k < content.sounds.len() ==> (#[trigger] r.1.sounds@[k]).len()
                == content.sounds@[k].sounds.len(),
{
    reveal(views);
    let mut inputs = Inputs { args: Vec::new(), keys: Vec::new() };
    let list = ["-y", "-hide_banner"];
    push_all(&mut inputs.args, &list);
    assert(views(list@) =~= seq!["-y"@, "-hide_banner"@]);
    assert(inputs@.args =~= seq!["-y"@, "-hide_banner"@]);
    assert(inputs@.keys =~= seq![]);
    let v1 = add_picture_inputs(&mut inputs, &content.v1, fps);
    let overlays = add_lanes_inputs(&mut inputs, &content.overlays, fps);
    let sounds = add_audio_inputs(&mut inputs, &content.sounds, fps);
    (inputs, FileNumbers { v1, overlays, sounds })
}

fn gather_filters(content: &ExportContent, look: &ExportLook, first: usize, files: &FileNumbers, Ghost(
    fps,
): Ghost<int>) -> (filters: Filters)
    requires
        files.v1.len() == content.v1.clips.len(),
        files.overlays.len() == content.overlays.len(),
        forall|k: int|
            0 <= k < content.overlays.len() ==> (#[trigger] files.overlays@[k]).len()
                == content.overlays@[k].clips.len(),
        files.sounds.len() == content.sounds.len(),
        forall|k: int|
            0 <= k < content.sounds.len() ==> (#[trigger] files.sounds@[k]).len()
                == content.sounds@[k].sounds.len(),
        content.v1.clips.len() < usize::MAX / 2 - 1,
        forall|k: int|
            0 <= k < content.overlays.len() ==> (#[trigger] content.overlays@[k]).clips.len()
                < usize::MAX / 2 - 1,
        forall|k: int|
            0 <= k < content.sounds.len() ==> (#[trigger] content.sounds@[k]).sounds.len()
                < usize::MAX / 2 - 1,
        content@.told(),
        look@.told(),
        first + content.subtitles.len() <= usize::MAX,
        content@.inputs(fps).0.keys.len() == first,
        content@.inputs(fps).1 == numbers(files.v1@),
        content@.inputs(fps).2 == number_lists(files.overlays@),
        content@.inputs(fps).3 == number_lists(files.sounds@),
    ensures
        filters.graph() == content@.graph(look@, fps),
{
    reveal(ContentView::graph);
    let mut parts: Vec<String> = Vec::new();
    assert(views(parts@) =~= seq![]);
    assert forall|k: int| 0 <= k < content.overlays.len() implies (#[trigger] content.overlays@[k])@.told() by {
        assert(content@.overlays[k].told());
    }
    let main = lay_main_row(&mut parts, &content.v1, &files.v1, content.length, look);
    let over = lay_over_rows(
        &mut parts,
        main,
        &content.overlays,
        &files.overlays,
        content.length,
        look,
    );
    let picture = lay_subtitles(&mut parts, over, &content.subtitles, first);
    let mixed = lay_sound_rows(&mut parts, &content.sounds, &files.sounds);
    push_text(&mut parts, mix_sounds(&mixed, content.length).as_str());
    Filters { parts, picture, sound: owned("[aout]") }
}

/// How many clips the first `n` rows of pictures have.
pub open spec fn picture_count(lanes: Seq<ExportLaneView>, n: int) -> int
    decreases n,
{
    if n <= 0 {
        0
    } else {
        picture_count(lanes, n - 1) + lanes[n - 1].clips.len()
    }
}

proof fn lemma_picture_count(lanes: Seq<ExportLaneView>, n: int)
    ensures
        picture_count(lanes, n) >= 0,
    decreases n,
{
    if n > 0 {
        lemma_picture_count(lanes, n - 1);
    }
}

/// How many clips the first `n` rows of sounds have.
pub open spec fn sound_count(lanes: Seq<ExportAudioLaneView>, n: int) -> int
    decreases n,
{
    if n <= 0 {
        0
    } else {
        sound_count(lanes, n - 1) + lanes[n - 1].sounds.len()
    }
}

proof fn lemma_picture_inputs(a: InputsView, clips: Seq<ExportClipView>, n: int, fps: int)
    requires
        0 <= n,
    ensures
        picture_inputs(a, clips, n, fps).0.keys.len() <= a.keys.len() + n,
    decreases n,
{
    if n > 0 {
        lemma_picture_inputs(a, clips, n - 1, fps);
    }
}

proof fn lemma_sound_inputs(a: InputsView, sounds: Seq<ExportSoundView>, n: int, fps: int)
    requires
        0 <= n,
    ensures
        sound_inputs(a, sounds, n, fps).0.keys.len() <= a.keys.len() + n,
    decreases n,
{
    if n > 0 {
        lemma_sound_inputs(a, sounds, n - 1, fps);
    }
}

proof fn lemma_lanes_inputs(a: InputsView, lanes: Seq<ExportLaneView>, n: int, fps: int)
    requires
        0 <= n,
    ensures
        lanes_inputs(a, lanes, n, fps).0.keys.len() <= a.keys.len() + picture_count(lanes, n),
    decreases n,
{
    if n > 0 {
        lemma_lanes_inputs(a, lanes, n - 1, fps);
        let before = lanes_inputs(a, lanes, n - 1, fps).0;
        lemma_picture_inputs(before, lanes[n - 1].clips, lanes[n - 1].clips.len() as int, fps);
    }
}

proof fn lemma_audio_inputs(a: InputsView, lanes: Seq<ExportAudioLaneView>, n: int, fps: int)
    requires
        0 <= n,
    ensures
        audio_inputs(a, lanes, n, fps).0.keys.len() <= a.keys.len() + sound_count(lanes, n),
    decreases n,
{
    if n > 0 {
        lemma_audio_inputs(a, lanes, n - 1, fps);
        let before = audio_inputs(a, lanes, n - 1, fps).0;
        lemma_sound_inputs(before, lanes[n - 1].sounds, lanes[n - 1].sounds.len() as int, fps);
    }
}

/// There are no more files than clips: one that was there already is not read again.
pub proof fn no_more_files_than_clips(content: ContentView, fps: int)
    ensures
        content.inputs(fps).0.keys.len() <= content.v1.clips.len() + picture_count(
            content.overlays,
            content.overlays.len() as int,
        ) + sound_count(content.sounds, content.sounds.len() as int),
{
    let none = InputsView { args: seq!["-y"@, "-hide_banner"@], keys: seq![] };
    let n = content.v1.clips.len() as int;
    lemma_picture_inputs(none, content.v1.clips, n, fps);
    let one = picture_inputs(none, content.v1.clips, n, fps).0;
    lemma_lanes_inputs(one, content.overlays, content.overlays.len() as int, fps);
    let two = lanes_inputs(one, content.overlays, content.overlays.len() as int, fps).0;
    lemma_audio_inputs(two, content.sounds, content.sounds.len() as int, fps);
}

proof fn lemma_key_place(keys: Seq<Seq<char>>, key: Seq<char>)
    ensures
        0 <= key_place(keys, key) <= keys.len(),
        key_place(keys, key) < keys.len() ==> keys[key_place(keys, key)] == key,
        forall|i: int| 0 <= i < key_place(keys, key) ==> #[trigger] keys[i] != key,
        forall|i: int| 0 <= i < keys.len() && #[trigger] keys[i] == key ==> key_place(keys, key)
            <= i,
{
    let p = is_key(key);
    crate::lists::lemma_first(keys, p);
    assert forall|i: int| 0 <= i < key_place(keys, key) implies #[trigger] keys[i] != key by {
        assert(!p(keys[i]));
    }
    assert forall|i: int| 0 <= i < keys.len() && #[trigger] keys[i] == key implies key_place(
        keys,
        key,
    ) <= i by {
        assert(p(keys[i]));
    }
}

/// A file that was added is among the inputs under its number, which no other key has, and
/// adding it again changes nothing.
pub proof fn added_file_is_found(inputs: InputsView, path: Seq<char>, image: Option<int>, fps: int)
    ensures
        ({
            let after = inputs.with(path, image, fps);
            let n = inputs.number(path, image, fps);
            &&& 0 <= n < after.keys.len()
            &&& after.keys[n] == input_key(path, image, fps)
            &&& after.number(path, image, fps) == n
            &&& after.with(path, image, fps) == after
        }),
{
    lemma_key_place(inputs.keys, input_key(path, image, fps));
    lemma_key_place(inputs.with(path, image, fps).keys, input_key(path, image, fps));
    let key = input_key(path, image, fps);
    let after = inputs.with(path, image, fps);
    let n = inputs.number(path, image, fps);
    if n >= inputs.keys.len() {
        assert(after.keys[n] == key);
        let m = after.number(path, image, fps);
        if m < n {
            assert(after.keys[m] == inputs.keys[m]);
        }
    }
}

/// The command by which the content is written to a file.
pub fn build_ffmpeg_cmd(
    content: &ExportContent,
    look: &ExportLook,
    range: Option<ExportRange>,
    preset: ExportPreset,
    settings: &ExportSettings,
    macos: bool,
    out_path: &str,
) -> (args: Vec<String>)
    requires
        content@.countable(),
        content@.told(),
        look@.told(),
        look@.fps == settings@.rate(),
    ensures
        views(args@) == content@.command(look@, range, preset, settings@, macos, out_path@),
{
    reveal(views);
    let fps = settings.normalized_fps();
    let (inputs, files) = gather_inputs(content, fps);
    let first: usize = inputs.keys.len();
    assert(first == inputs@.keys.len());
    proof {
        no_more_files_than_clips(content@, fps as int);
        let most = usize::MAX / 2 - 1;
        assert forall|k: int| 0 <= k < content.overlays.len() implies (
        #[trigger] content.overlays@[k]).clips.len() < most by {
            assert(content@.overlays[k].clips.len() < most);
        }
        assert forall|k: int| 0 <= k < content.sounds.len() implies (
        #[trigger] content.sounds@[k]).sounds.len() < most by {
            assert(content@.sounds[k].sounds.len() < most);
        }
        assert(content@.v1.clips.len() == content.v1.clips.len());
    }
    let mut filters = gather_filters(content, look, first, &files, Ghost(fps as int));
    filters.trim(range);
    let audio_only = preset.is_audio_only();
    filters.close(audio_only);
    let mut args = inputs.args;
    add_subtitle_args(&mut args, &content.subtitles, fps, content.length);
    let filter = join_texts(&filters.parts, ";");
    let list = ["-filter_complex", filter.as_str()];
    push_all(&mut args, &list);
    assert(views(list@) =~= seq!["-filter_complex"@, filter@]);
    if !audio_only {
        let pictured = ["-map", filters.picture.as_str()];
        push_all(&mut args, &pictured);
        assert(views(pictured@) =~= seq!["-map"@, filters.picture@]);
    }
    let sounded = ["-map", filters.sound.as_str()];
    push_all(&mut args, &sounded);
    assert(views(sounded@) =~= seq!["-map"@, filters.sound@]);
    preset.push_output_args(&mut args, settings, macos);
    push_text(&mut args, out_path);
    args
}

} // verus!
