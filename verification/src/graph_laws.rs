//! What the command of an export reads and plays.
use crate::export_clip::{DrawingView, ExportClipView, LookView};
use crate::export_effects::{mask_filters, one_mask};
use crate::export_graph::{
    audio_inputs, input_key, joined_by, key_place, lanes_inputs, media_key, picture_inputs,
    picture_key, sound_inputs, sound_parts, sound_row, sound_rows, sound_run, subtitle_args,
    with_sound, with_subtitles, ContentView, ExportAudioLaneView, ExportLaneView, ExportSoundView,
    InputsView, LaneKind, LaneRun, SubtitleOverlayView,
};
use crate::export_settings::{ExportPreset, ExportRange, ExportSettingsView};
use crate::filter_words::{seconds_in_full, seconds_in_six_digits};
use crate::lists::lemma_first;
use crate::text::decimal;
use crate::time::MAX_NANOS;
use vstd::prelude::*;

verus! {

// ---------------------------------------------------------------------------
// Filters of a command
// ---------------------------------------------------------------------------

/// Whether a text is another between two texts, of which the first ends in a semicolon and the second
/// begins with one, where there is anything.
pub open spec fn stands_between(
    graph: Seq<char>,
    before: Seq<char>,
    filter: Seq<char>,
    behind: Seq<char>,
) -> bool {
    &&& graph == before + filter + behind
    &&& before.len() > 0 ==> before.last() == ';'
    &&& behind.len() > 0 ==> behind[0] == ';'
}

/// Whether a filter is one of those that a graph is made of.
pub open spec fn graph_has(graph: Seq<char>, filter: Seq<char>) -> bool {
    exists|before: Seq<char>, behind: Seq<char>| stands_between(graph, before, filter, behind)
}

/// Whether a command has a graph with a filter.
pub open spec fn filters(command: Seq<Seq<char>>, filter: Seq<char>) -> bool {
    exists|i: int|
        0 <= i < command.len() - 1 && command[i] == "-filter_complex"@ && graph_has(
            #[trigger] command[i + 1],
            filter,
        )
}

/// The files that arguments in pairs tell to read.
pub open spec fn files_read(args: Seq<Seq<char>>) -> Seq<Seq<char>>
    decreases args.len(),
{
    if args.len() < 2 {
        seq![]
    } else {
        let front = files_read(args.take(args.len() - 2));
        if args[args.len() - 2] == "-i"@ {
            front.push(args[args.len() - 1])
        } else {
            front
        }
    }
}

/// Whether a command reads a file as the input of a number, in front of its graph.
pub open spec fn reads(command: Seq<Seq<char>>, n: int, path: Seq<char>) -> bool {
    exists|i: int|
        0 <= i < command.len() && #[trigger] command[i] == "-filter_complex"@ && 0 <= n < files_read(
            command.take(i),
        ).len() && files_read(command.take(i))[n] == path
}

/// Whether each filter of a list is in another list.
spec fn keeps(a: Seq<Seq<char>>, b: Seq<Seq<char>>) -> bool {
    forall|p: Seq<char>| #[trigger] a.contains(p) ==> b.contains(p)
}

proof fn lemma_push(a: Seq<Seq<char>>, x: Seq<char>)
    ensures
        keeps(a, a.push(x)),
        a.push(x).contains(x),
{
    let b = a.push(x);
    assert(b[b.len() - 1] == x);
    assert forall|p: Seq<char>| #[trigger] a.contains(p) implies b.contains(p) by {
        let i = choose|i: int| 0 <= i < a.len() && a[i] == p;
        assert(b[i] == p);
    }
}

proof fn lemma_joined_has(list: Seq<Seq<char>>, p: Seq<char>)
    requires
        list.contains(p),
    ensures
        graph_has(joined_by(list, ";"@), p),
    decreases list.len(),
{
    reveal_strlit(";");
    assert(";"@ =~= seq![';']);
    let graph = joined_by(list, ";"@);
    if list.len() == 1 {
        assert(list[0] == p);
        let none = Seq::<char>::empty();
        assert(graph =~= none + p + none);
        assert(stands_between(graph, none, p, none));
    } else {
        let front = list.drop_last();
        let head = joined_by(front, ";"@);
        if list.last() == p {
            let before = head + ";"@;
            let none = Seq::<char>::empty();
            assert(graph =~= before + p + none);
            assert(before.last() == ';');
            assert(stands_between(graph, before, p, none));
        } else {
            let i = choose|i: int| 0 <= i < list.len() && list[i] == p;
            assert(front[i] == p);
            lemma_joined_has(front, p);
            let (before, behind) = choose|before: Seq<char>, behind: Seq<char>|
                stands_between(head, before, p, behind);
            let rest = behind + ";"@ + list.last();
            assert(graph =~= before + p + rest);
            assert(rest[0] == ';');
            assert(stands_between(graph, before, p, rest));
        }
    }
}

proof fn lemma_command_filters(
    content: ContentView,
    look: LookView,
    range: Option<ExportRange>,
    preset: ExportPreset,
    settings: ExportSettingsView,
    macos: bool,
    out_path: Seq<char>,
    p: Seq<char>,
)
    requires
        content.graph(look, settings.rate()).trimmed(range).closed(
            preset.audio_only(),
        ).parts.contains(p),
    ensures
        filters(content.command(look, range, preset, settings, macos, out_path), p),
{
    let command = content.command(look, range, preset, settings, macos, out_path);
    let graph = content.graph(look, settings.rate()).trimmed(range).closed(preset.audio_only());
    lemma_joined_has(graph.parts, p);
    let files = subtitle_args(
        content.inputs(settings.rate()).0.args,
        content.subtitles,
        content.subtitles.len() as int,
        settings.rate(),
        content.length,
    );
    let i = files.len() as int;
    assert(command[i] == "-filter_complex"@);
    assert(command[i + 1] == joined_by(graph.parts, ";"@));
}

proof fn lemma_in_graph(
    content: ContentView,
    look: LookView,
    range: Option<ExportRange>,
    preset: ExportPreset,
    settings: ExportSettingsView,
    macos: bool,
    out_path: Seq<char>,
    p: Seq<char>,
)
    requires
        content.graph(look, settings.rate()).parts.contains(p),
    ensures
        filters(content.command(look, range, preset, settings, macos, out_path), p),
{
    let g = content.graph(look, settings.rate());
    let t = g.trimmed(range);
    if let Some(r) = range {
        let a = g.parts.push(t.parts[g.parts.len() as int]);
        lemma_push(g.parts, t.parts[g.parts.len() as int]);
        assert(a.push(t.parts[g.parts.len() + 1int]) =~= t.parts);
        lemma_push(a, t.parts[g.parts.len() + 1int]);
    }
    let c = t.closed(preset.audio_only());
    if preset.audio_only() {
        lemma_push(t.parts, c.parts[t.parts.len() as int]);
        assert(t.parts.push(c.parts[t.parts.len() as int]) =~= c.parts);
    }
    lemma_command_filters(content, look, range, preset, settings, macos, out_path, p);
}

// ---------------------------------------------------------------------------
// Files
// ---------------------------------------------------------------------------

/// Whether inputs read one file for each key, and for the key of a medium that medium.
spec fn are_read(inputs: InputsView) -> bool {
    &&& inputs.args.len() % 2 == 0
    &&& files_read(inputs.args).len() == inputs.keys.len()
    &&& forall|n: int, path: Seq<char>|
        0 <= n < inputs.keys.len() && inputs.keys[n] == #[trigger] media_key(path)
            ==> #[trigger] files_read(inputs.args)[n] == path
}

/// Whether inputs begin with others.
spec fn go_on(a: InputsView, b: InputsView) -> bool {
    &&& a.keys.len() <= b.keys.len()
    &&& forall|n: int| 0 <= n < a.keys.len() ==> #[trigger] b.keys[n] == a.keys[n]
}

proof fn lemma_pair(args: Seq<Seq<char>>, flag: Seq<char>, value: Seq<char>)
    ensures
        files_read(args + seq![flag, value]) == if flag == "-i"@ {
            files_read(args).push(value)
        } else {
            files_read(args)
        },
{
    let more = args + seq![flag, value];
    assert(more.take(more.len() - 2) =~= args);
}

proof fn lemma_flags()
    ensures
        "-loop"@ != "-i"@,
        "-framerate"@ != "-i"@,
        "-t"@ != "-i"@,
        "-y"@ != "-i"@,
{
    reveal_strlit("-loop");
    reveal_strlit("-framerate");
    reveal_strlit("-t");
    reveal_strlit("-y");
    reveal_strlit("-i");
    assert("-loop"@[1] == 'l');
    assert("-framerate"@[1] == 'f');
    assert("-t"@[1] == 't');
    assert("-y"@[1] == 'y');
    assert("-i"@[1] == 'i');
}

proof fn lemma_keys_differ(path: Seq<char>, other: Seq<char>, fps: Seq<char>, length: Seq<char>)
    ensures
        media_key(path) != picture_key(other, fps, length),
        media_key(path) == media_key(other) ==> path == other,
{
    reveal_strlit("media|");
    reveal_strlit("img|");
    assert(media_key(path)[0] == 'm');
    assert(picture_key(other, fps, length)[0] == 'i');
    if media_key(path) == media_key(other) {
        let k = "media|"@.len() as int;
        assert(media_key(path).skip(k) =~= path);
        assert(media_key(other).skip(k) =~= other);
    }
}

proof fn lemma_six(args: Seq<Seq<char>>, fps: Seq<char>, length: Seq<char>)
    ensures
        files_read(args + seq!["-loop"@, "1"@, "-framerate"@, fps, "-t"@, length]) == files_read(args),
{
    lemma_flags();
    let a = args + seq!["-loop"@, "1"@];
    let b = a + seq!["-framerate"@, fps];
    let c = b + seq!["-t"@, length];
    assert(c =~= args + seq!["-loop"@, "1"@, "-framerate"@, fps, "-t"@, length]);
    lemma_pair(args, "-loop"@, "1"@);
    lemma_pair(a, "-framerate"@, fps);
    lemma_pair(b, "-t"@, length);
}

proof fn lemma_with(inputs: InputsView, path: Seq<char>, image: Option<int>, fps: int)
    requires
        are_read(inputs),
    ensures
        ({
            let after = inputs.with(path, image, fps);
            let n = inputs.number(path, image, fps);
            &&& are_read(after)
            &&& go_on(inputs, after)
            &&& 0 <= n < after.keys.len()
            &&& after.keys[n] == input_key(path, image, fps)
        }),
{
    let key = input_key(path, image, fps);
    lemma_first(inputs.keys, crate::export_graph::is_key(key));
    let n = key_place(inputs.keys, key);
    let after = inputs.with(path, image, fps);
    if n < inputs.keys.len() {
        assert(crate::export_graph::is_key(key)(inputs.keys[n]));
    } else {
        let opened = match image {
            Some(d) => inputs.args + seq![
                "-loop"@,
                "1"@,
                "-framerate"@,
                decimal(fps),
                "-t"@,
                crate::filter_words::full(d),
            ],
            None => inputs.args,
        };
        if let Some(d) = image {
            lemma_six(inputs.args, decimal(fps), crate::filter_words::full(d));
        }
        lemma_pair(opened, "-i"@, path);
        assert(files_read(after.args) == files_read(inputs.args).push(path));
        assert forall|m: int, other: Seq<char>|
            0 <= m < after.keys.len() && after.keys[m] == #[trigger] media_key(
                other,
            ) implies #[trigger] files_read(after.args)[m] == other by {
            if m < inputs.keys.len() {
                assert(inputs.keys[m] == media_key(other));
                assert(files_read(inputs.args)[m] == other);
            } else {
                match image {
                    Some(d) => {
                        lemma_keys_differ(other, path, decimal(fps), crate::filter_words::fixed(d));
                    },
                    None => {
                        lemma_keys_differ(other, path, seq![], seq![]);
                    },
                }
            }
        }
    }
}

/// Whether numbers are those of the keys of some inputs.
spec fn are_numbers(inputs: InputsView, numbers: Seq<int>, keys: Seq<Seq<char>>) -> bool {
    &&& numbers.len() == keys.len()
    &&& forall|j: int|
        0 <= j < keys.len() ==> 0 <= #[trigger] numbers[j] < inputs.keys.len()
            && inputs.keys[numbers[j]] == keys[j]
}

spec fn picture_keys(clips: Seq<ExportClipView>, n: int, fps: int) -> Seq<Seq<char>> {
    Seq::new(
        n as nat,
        |j: int|
            input_key(
                clips[j].clip.file_path,
                crate::export_graph::still_length(clips[j].clip),
                fps,
            ),
    )
}

spec fn sound_keys(sounds: Seq<ExportSoundView>, n: int, fps: int) -> Seq<Seq<char>> {
    Seq::new(n as nat, |j: int| input_key(sounds[j].clip.file_path, None, fps))
}

proof fn lemma_numbers_go_on(a: InputsView, b: InputsView, numbers: Seq<int>, keys: Seq<Seq<char>>)
    requires
        are_numbers(a, numbers, keys),
        go_on(a, b),
    ensures
        are_numbers(b, numbers, keys),
{
    assert forall|j: int| 0 <= j < keys.len() implies 0 <= #[trigger] numbers[j] < b.keys.len()
        && b.keys[numbers[j]] == keys[j] by {
        assert(b.keys[numbers[j]] == a.keys[numbers[j]]);
    }
}

proof fn lemma_picture_inputs(inputs: InputsView, clips: Seq<ExportClipView>, n: int, fps: int)
    requires
        are_read(inputs),
        0 <= n <= clips.len(),
    ensures
        ({
            let (after, numbers) = picture_inputs(inputs, clips, n, fps);
            &&& are_read(after)
            &&& go_on(inputs, after)
            &&& are_numbers(after, numbers, picture_keys(clips, n, fps))
        }),
    decreases n,
{
    if n > 0 {
        lemma_picture_inputs(inputs, clips, n - 1, fps);
        let (before, numbers) = picture_inputs(inputs, clips, n - 1, fps);
        let c = clips[n - 1].clip;
        let image = crate::export_graph::still_length(c);
        lemma_with(before, c.file_path, image, fps);
        let after = before.with(c.file_path, image, fps);
        lemma_numbers_go_on(before, after, numbers, picture_keys(clips, n - 1, fps));
        assert forall|m: int| 0 <= m < inputs.keys.len() implies #[trigger] after.keys[m]
            == inputs.keys[m] by {
            assert(before.keys[m] == inputs.keys[m]);
        }
        let all = picture_inputs(inputs, clips, n, fps).1;
        let keys = picture_keys(clips, n, fps);
        assert forall|j: int| 0 <= j < keys.len() implies 0 <= #[trigger] all[j] < after.keys.len()
            && after.keys[all[j]] == keys[j] by {
            if j < n - 1 {
                assert(all[j] == numbers[j]);
                assert(picture_keys(clips, n - 1, fps)[j] == keys[j]);
            }
        }
    }
}

proof fn lemma_sound_inputs(inputs: InputsView, sounds: Seq<ExportSoundView>, n: int, fps: int)
    requires
        are_read(inputs),
        0 <= n <= sounds.len(),
    ensures
        ({
            let (after, numbers) = sound_inputs(inputs, sounds, n, fps);
            &&& are_read(after)
            &&& go_on(inputs, after)
            &&& are_numbers(after, numbers, sound_keys(sounds, n, fps))
        }),
    decreases n,
{
    if n > 0 {
        lemma_sound_inputs(inputs, sounds, n - 1, fps);
        let (before, numbers) = sound_inputs(inputs, sounds, n - 1, fps);
        let path = sounds[n - 1].clip.file_path;
        lemma_with(before, path, None, fps);
        let after = before.with(path, None, fps);
        lemma_numbers_go_on(before, after, numbers, sound_keys(sounds, n - 1, fps));
        assert forall|m: int| 0 <= m < inputs.keys.len() implies #[trigger] after.keys[m]
            == inputs.keys[m] by {
            assert(before.keys[m] == inputs.keys[m]);
        }
        let all = sound_inputs(inputs, sounds, n, fps).1;
        let keys = sound_keys(sounds, n, fps);
        assert forall|j: int| 0 <= j < keys.len() implies 0 <= #[trigger] all[j] < after.keys.len()
            && after.keys[all[j]] == keys[j] by {
            if j < n - 1 {
                assert(all[j] == numbers[j]);
                assert(sound_keys(sounds, n - 1, fps)[j] == keys[j]);
            }
        }
    }
}

proof fn lemma_lanes_inputs(inputs: InputsView, lanes: Seq<ExportLaneView>, n: int, fps: int)
    requires
        are_read(inputs),
        0 <= n <= lanes.len(),
    ensures
        ({
            let (after, lists) = lanes_inputs(inputs, lanes, n, fps);
            &&& are_read(after)
            &&& go_on(inputs, after)
            &&& lists.len() == n
            &&& forall|k: int|
                0 <= k < n ==> are_numbers(
                    after,
                    #[trigger] lists[k],
                    picture_keys(lanes[k].clips, lanes[k].clips.len() as int, fps),
                )
        }),
    decreases n,
{
    if n > 0 {
        lemma_lanes_inputs(inputs, lanes, n - 1, fps);
        let (before, lists) = lanes_inputs(inputs, lanes, n - 1, fps);
        let clips = lanes[n - 1].clips;
        lemma_picture_inputs(before, clips, clips.len() as int, fps);
        let (after, list) = picture_inputs(before, clips, clips.len() as int, fps);
        assert forall|m: int| 0 <= m < inputs.keys.len() implies #[trigger] after.keys[m]
            == inputs.keys[m] by {
            assert(before.keys[m] == inputs.keys[m]);
        }
        let all = lists.push(list);
        assert forall|k: int| 0 <= k < n implies are_numbers(
            after,
            #[trigger] all[k],
            picture_keys(lanes[k].clips, lanes[k].clips.len() as int, fps),
        ) by {
            if k < n - 1 {
                assert(are_numbers(
                    before,
                    lists[k],
                    picture_keys(lanes[k].clips, lanes[k].clips.len() as int, fps),
                ));
                lemma_numbers_go_on(
                    before,
                    after,
                    lists[k],
                    picture_keys(lanes[k].clips, lanes[k].clips.len() as int, fps),
                );
            }
        }
    }
}

proof fn lemma_audio_inputs(inputs: InputsView, lanes: Seq<ExportAudioLaneView>, n: int, fps: int)
    requires
        are_read(inputs),
        0 <= n <= lanes.len(),
    ensures
        ({
            let (after, lists) = audio_inputs(inputs, lanes, n, fps);
            &&& are_read(after)
            &&& go_on(inputs, after)
            &&& lists.len() == n
            &&& forall|k: int|
                0 <= k < n ==> are_numbers(
                    after,
                    #[trigger] lists[k],
                    sound_keys(lanes[k].sounds, lanes[k].sounds.len() as int, fps),
                )
        }),
    decreases n,
{
    if n > 0 {
        lemma_audio_inputs(inputs, lanes, n - 1, fps);
        let (before, lists) = audio_inputs(inputs, lanes, n - 1, fps);
        let sounds = lanes[n - 1].sounds;
        lemma_sound_inputs(before, sounds, sounds.len() as int, fps);
        let (after, list) = sound_inputs(before, sounds, sounds.len() as int, fps);
        assert forall|m: int| 0 <= m < inputs.keys.len() implies #[trigger] after.keys[m]
            == inputs.keys[m] by {
            assert(before.keys[m] == inputs.keys[m]);
        }
        let all = lists.push(list);
        assert forall|k: int| 0 <= k < n implies are_numbers(
            after,
            #[trigger] all[k],
            sound_keys(lanes[k].sounds, lanes[k].sounds.len() as int, fps),
        ) by {
            if k < n - 1 {
                assert(are_numbers(
                    before,
                    lists[k],
                    sound_keys(lanes[k].sounds, lanes[k].sounds.len() as int, fps),
                ));
                lemma_numbers_go_on(
                    before,
                    after,
                    lists[k],
                    sound_keys(lanes[k].sounds, lanes[k].sounds.len() as int, fps),
                );
            }
        }
    }
}

/// All numbers of a content are those of its files.
proof fn lemma_inputs(content: ContentView, fps: int)
    ensures
        ({
            let (files, v1, overlays, sounds) = content.inputs(fps);
            &&& are_read(files)
            &&& are_numbers(
                files,
                v1,
                picture_keys(content.v1.clips, content.v1.clips.len() as int, fps),
            )
            &&& overlays.len() == content.overlays.len()
            &&& forall|k: int|
                0 <= k < content.overlays.len() ==> are_numbers(
                    files,
                    #[trigger] overlays[k],
                    picture_keys(
                        content.overlays[k].clips,
                        content.overlays[k].clips.len() as int,
                        fps,
                    ),
                )
            &&& sounds.len() == content.sounds.len()
            &&& forall|k: int|
                0 <= k < content.sounds.len() ==> are_numbers(
                    files,
                    #[trigger] sounds[k],
                    sound_keys(
                        content.sounds[k].sounds,
                        content.sounds[k].sounds.len() as int,
                        fps,
                    ),
                )
        }),
{
    let none = InputsView { args: seq!["-y"@, "-hide_banner"@], keys: seq![] };
    lemma_flags();
    lemma_pair(seq![], "-y"@, "-hide_banner"@);
    assert(Seq::<Seq<char>>::empty() + seq!["-y"@, "-hide_banner"@] =~= none.args);
    assert(files_read(Seq::<Seq<char>>::empty()).len() == 0);
    assert(are_read(none));
    let n1 = content.v1.clips.len() as int;
    lemma_picture_inputs(none, content.v1.clips, n1, fps);
    let (one, v1) = picture_inputs(none, content.v1.clips, n1, fps);
    let n2 = content.overlays.len() as int;
    lemma_lanes_inputs(one, content.overlays, n2, fps);
    let (two, overlays) = lanes_inputs(one, content.overlays, n2, fps);
    let n3 = content.sounds.len() as int;
    lemma_audio_inputs(two, content.sounds, n3, fps);
    let (three, sounds) = audio_inputs(two, content.sounds, n3, fps);
    lemma_numbers_go_on(one, two, v1, picture_keys(content.v1.clips, n1, fps));
    lemma_numbers_go_on(two, three, v1, picture_keys(content.v1.clips, n1, fps));
    assert forall|k: int| 0 <= k < content.overlays.len() implies are_numbers(
        three,
        #[trigger] overlays[k],
        picture_keys(content.overlays[k].clips, content.overlays[k].clips.len() as int, fps),
    ) by {
        lemma_numbers_go_on(
            two,
            three,
            overlays[k],
            picture_keys(content.overlays[k].clips, content.overlays[k].clips.len() as int, fps),
        );
    }
}

proof fn lemma_subtitle_files(
    args: Seq<Seq<char>>,
    subtitles: Seq<SubtitleOverlayView>,
    n: int,
    fps: int,
    length: int,
)
    requires
        0 <= n <= subtitles.len(),
    ensures
        ({
            let before = files_read(args);
            let after = files_read(subtitle_args(args, subtitles, n, fps, length));
            &&& after.len() == before.len() + n
            &&& forall|m: int| 0 <= m < before.len() ==> #[trigger] after[m] == before[m]
            &&& forall|k: int| 0 <= k < n ==> after[before.len() + k] == (#[trigger] subtitles[k]).path
        }),
    decreases n,
{
    if n > 0 {
        lemma_subtitle_files(args, subtitles, n - 1, fps, length);
        let a = subtitle_args(args, subtitles, n - 1, fps, length);
        let f = decimal(fps);
        let l = crate::filter_words::full(length);
        let path = subtitles[n - 1].path;
        lemma_six(a, f, l);
        let b = a + seq!["-loop"@, "1"@, "-framerate"@, f, "-t"@, l];
        lemma_pair(b, "-i"@, path);
        assert(subtitle_args(args, subtitles, n, fps, length) =~= b + seq!["-i"@, path]);
    }
}

/// A medium under its number is read by the command.
proof fn lemma_reads(
    content: ContentView,
    look: LookView,
    range: Option<ExportRange>,
    preset: ExportPreset,
    settings: ExportSettingsView,
    macos: bool,
    out_path: Seq<char>,
    n: int,
    path: Seq<char>,
)
    requires
        ({
            let files = content.inputs(settings.rate()).0;
            0 <= n < files.keys.len() && files.keys[n] == media_key(path)
        }),
    ensures
        reads(content.command(look, range, preset, settings, macos, out_path), n, path),
{
    let fps = settings.rate();
    lemma_inputs(content, fps);
    let files = content.inputs(fps).0;
    lemma_subtitle_files(
        files.args,
        content.subtitles,
        content.subtitles.len() as int,
        fps,
        content.length,
    );
    let args = subtitle_args(
        files.args,
        content.subtitles,
        content.subtitles.len() as int,
        fps,
        content.length,
    );
    assert(files_read(files.args)[n] == path);
    let command = content.command(look, range, preset, settings, macos, out_path);
    let i = args.len() as int;
    assert(command.take(i) =~= args);
    assert(command[i] == "-filter_complex"@);
}

// ---------------------------------------------------------------------------
// Sound
// ---------------------------------------------------------------------------

/// Whether a length of time can be written down.
pub open spec fn time_fits(t: int) -> bool {
    0 <= t <= MAX_NANOS
}

/// The name of a sound in the graph, by its row and its place in it.
pub open spec fn sound_name(what: Seq<char>, row: int, i: int) -> Seq<char> {
    "["@ + ("audio_"@ + decimal(row)) + "_"@ + what + "_"@ + decimal(i) + "]"@
}

/// The time up to which a row of sounds is filled in front of the one at a place.
pub open spec fn sounds_until(sounds: Seq<ExportSoundView>, i: int) -> int {
    if i <= 0 {
        0
    } else {
        sounds[i - 1].clip.start + sounds[i - 1].clip.duration
    }
}

proof fn lemma_sound_run(
    parts: Seq<Seq<char>>,
    sounds: Seq<ExportSoundView>,
    label: Seq<char>,
    inputs: Seq<int>,
    n: int,
)
    requires
        0 <= n <= sounds.len(),
        forall|j: int|
            0 <= j < sounds.len() ==> time_fits((#[trigger] sounds[j]).clip.start
                + sounds[j].clip.duration),
    ensures
        keeps(parts, sound_run(parts, sounds, label, inputs, n).parts),
        sound_run(parts, sounds, label, inputs, n).cursor == sounds_until(sounds, n),
    decreases n,
{
    reveal(with_sound);
    if n > 0 {
        lemma_sound_run(parts, sounds, label, inputs, n - 1);
        lemma_sound_step(
            sound_run(parts, sounds, label, inputs, n - 1),
            sounds[n - 1],
            label,
            inputs[n - 1],
            n - 1,
        );
        assert(time_fits(sounds[n - 1].clip.start + sounds[n - 1].clip.duration));
    }
}

proof fn lemma_sound_step(
    run: crate::export_graph::SoundRun,
    s: ExportSoundView,
    label: Seq<char>,
    input: int,
    i: int,
)
    ensures
        ({
            let after = with_sound(run, s, label, input, i);
            let gap = crate::export_graph::sound_tag(label, "gap"@, decimal(i));
            let tag = crate::export_graph::sound_tag(label, "clip"@, decimal(i));
            let raw = crate::export_graph::sound_tag(label, "clip_raw"@, decimal(i));
            &&& keeps(run.parts, after.parts)
            &&& s.clip.start > run.cursor ==> after.parts.contains(
                crate::export_graph::silence(
                    crate::filter_words::full(crate::time::monus(s.clip.start, run.cursor)),
                    gap,
                ),
            )
            &&& s.has_audio ==> after.parts.contains(
                crate::export_graph::sound_piece(
                    decimal(input),
                    crate::filter_words::fixed(s.clip.source_in),
                    crate::filter_words::fixed(
                        crate::export_clip::time_sum(s.clip.source_in, s.clip.duration),
                    ),
                    raw,
                ),
            )
            &&& s.has_audio && s.volume is Some ==> after.parts.contains(
                crate::export_graph::volume_filter(raw, s.volume->0, tag),
            )
            &&& s.has_audio && s.volume is None ==> after.parts.contains(
                crate::export_graph::unchanged_filter(raw, tag),
            )
            &&& !s.has_audio ==> after.parts.contains(
                crate::export_graph::silence(
                    crate::filter_words::fixed(crate::time::greatest(s.clip.duration, 1_000_000)),
                    tag,
                ),
            )
        }),
{
    reveal(with_sound);
    reveal(sound_parts);
    let gap = crate::export_graph::sound_tag(label, "gap"@, decimal(i));
    let tag = crate::export_graph::sound_tag(label, "clip"@, decimal(i));
    let raw = crate::export_graph::sound_tag(label, "clip_raw"@, decimal(i));
    let silent = crate::export_graph::silence(
        crate::filter_words::full(crate::time::monus(s.clip.start, run.cursor)),
        gap,
    );
    let front = if s.clip.start > run.cursor {
        run.parts.push(silent)
    } else {
        run.parts
    };
    lemma_push(run.parts, silent);
    if s.has_audio {
        let piece = crate::export_graph::sound_piece(
            decimal(input),
            crate::filter_words::fixed(s.clip.source_in),
            crate::filter_words::fixed(
                crate::export_clip::time_sum(s.clip.source_in, s.clip.duration),
            ),
            raw,
        );
        lemma_push(front, piece);
        match s.volume {
            Some(v) => lemma_push(
                front.push(piece),
                crate::export_graph::volume_filter(raw, v, tag),
            ),
            None => lemma_push(
                front.push(piece),
                crate::export_graph::unchanged_filter(raw, tag),
            ),
        }
    } else {
        lemma_push(
            front,
            crate::export_graph::silence(
                crate::filter_words::fixed(crate::time::greatest(s.clip.duration, 1_000_000)),
                tag,
            ),
        );
    }
}

/// The row with more sounds keeps the filters of one of them.
proof fn lemma_sound_run_keeps(
    parts: Seq<Seq<char>>,
    sounds: Seq<ExportSoundView>,
    label: Seq<char>,
    inputs: Seq<int>,
    m: int,
    n: int,
)
    requires
        0 <= m <= n <= sounds.len(),
    ensures
        keeps(
            sound_run(parts, sounds, label, inputs, m).parts,
            sound_run(parts, sounds, label, inputs, n).parts,
        ),
    decreases n - m,
{
    if m < n {
        lemma_sound_run_keeps(parts, sounds, label, inputs, m, n - 1);
        lemma_sound_step(
            sound_run(parts, sounds, label, inputs, n - 1),
            sounds[n - 1],
            label,
            inputs[n - 1],
            n - 1,
        );
    }
}

proof fn lemma_sound_row_keeps(
    before: (Seq<Seq<char>>, Seq<Seq<char>>),
    lane: ExportAudioLaneView,
    inputs: Seq<int>,
    i: int,
)
    ensures
        keeps(before.0, sound_row(before, lane, inputs, i).0),
        lane.sounds.len() > 0 ==> keeps(
            sound_run(
                before.0,
                lane.sounds,
                crate::export_graph::sound_label(decimal(i)),
                inputs,
                lane.sounds.len() as int,
            ).parts,
            sound_row(before, lane, inputs, i).0,
        ),
{
    reveal(sound_row);
    if lane.sounds.len() > 0 {
        let label = crate::export_graph::sound_label(decimal(i));
        let n = lane.sounds.len() as int;
        lemma_sound_run_keeps(before.0, lane.sounds, label, inputs, 0, n);
        let run = sound_run(before.0, lane.sounds, label, inputs, n);
        let tag = crate::export_graph::sound_row_tag(decimal(i));
        let joined = crate::export_graph::sounds_joined(run.names, decimal(run.count), tag);
        lemma_push(run.parts, joined);
        if let Some(v) = lane.volume {
            let loud = crate::export_graph::sound_gain_tag(decimal(i));
            lemma_push(
                run.parts.push(joined),
                crate::export_graph::volume_filter(tag, v, loud),
            );
        }
    }
}

proof fn lemma_sound_rows_keep(
    parts: Seq<Seq<char>>,
    lanes: Seq<ExportAudioLaneView>,
    inputs: Seq<Seq<int>>,
    m: int,
    n: int,
)
    requires
        0 <= m <= n,
    ensures
        keeps(sound_rows(parts, lanes, inputs, m).0, sound_rows(parts, lanes, inputs, n).0),
    decreases n - m,
{
    if m < n {
        lemma_sound_rows_keep(parts, lanes, inputs, m, n - 1);
        lemma_sound_row_keeps(
            sound_rows(parts, lanes, inputs, n - 1),
            lanes[n - 1],
            inputs[n - 1],
            n - 1,
        );
    }
}

/// The filters that a graph has of its sounds.
proof fn lemma_sounds_in_graph(content: ContentView, look: LookView, fps: int)
    ensures
        ({
            let (files, v1, overlays, sounds) = content.inputs(fps);
            let main = look.main_row(seq![], content.v1, v1, content.length);
            let over = look.over_rows(
                main,
                content.overlays,
                overlays,
                content.length,
                content.overlays.len() as int,
            );
            let pictures = with_subtitles(
                over,
                content.subtitles,
                files.keys.len() as int,
                content.subtitles.len() as int,
            ).0;
            keeps(
                sound_rows(pictures, content.sounds, sounds, content.sounds.len() as int).0,
                content.graph(look, fps).parts,
            )
        }),
{
    reveal(ContentView::graph);
    let (files, v1, overlays, sounds) = content.inputs(fps);
    let main = look.main_row(seq![], content.v1, v1, content.length);
    let over = look.over_rows(
        main,
        content.overlays,
        overlays,
        content.length,
        content.overlays.len() as int,
    );
    let pictures = with_subtitles(
        over,
        content.subtitles,
        files.keys.len() as int,
        content.subtitles.len() as int,
    ).0;
    let (all, mixed) = sound_rows(pictures, content.sounds, sounds, content.sounds.len() as int);
    lemma_push(all, crate::export_graph::mixed_sound(mixed, content.length));
}

/// Every exported sound is played from its piece of its file: the command reads the file, and the
/// graph takes from it the time from where the clip begins in it for as long as the clip lasts, as
/// loud as it was set. Where the row is not yet filled up to the start of the clip there is silence
/// for the rest, so that at each time of the timeline the time of the file is heard that the clip
/// shows there. A clip without sound is silent for as long as it lasts.
pub proof fn exported_sound_plays_its_piece(
    content: ContentView,
    look: LookView,
    range: Option<ExportRange>,
    preset: ExportPreset,
    settings: ExportSettingsView,
    macos: bool,
    out_path: Seq<char>,
    k: int,
    j: int,
)
    requires
        0 <= k < content.sounds.len(),
        0 <= j < content.sounds[k].sounds.len(),
        forall|m: int|
            0 <= m < content.sounds[k].sounds.len() ==> {
                let c = (#[trigger] content.sounds[k].sounds[m]).clip;
                time_fits(c.start) && time_fits(c.duration) && time_fits(c.start + c.duration)
                    && time_fits(c.source_in) && time_fits(c.source_in + c.duration)
            },
    ensures
        ({
            let command = content.command(look, range, preset, settings, macos, out_path);
            let s = content.sounds[k].sounds[j];
            let c = s.clip;
            let raw = sound_name("clip_raw"@, k, j);
            let name = sound_name("clip"@, k, j);
            let until = sounds_until(content.sounds[k].sounds, j);
            &&& s.has_audio ==> exists|n: int|
                #[trigger] reads(command, n, c.file_path) && filters(
                    command,
                    "["@ + decimal(n) + ":a:0]aresample=48000,atrim=start="@ + seconds_in_six_digits(
                        c.source_in as nat,
                    ) + ":end="@ + seconds_in_six_digits((c.source_in + c.duration) as nat)
                        + ",asetpts=PTS-STARTPTS"@ + raw,
                )
            &&& s.has_audio ==> filters(
                command,
                match s.volume {
                    Some(v) => raw + "volume="@ + v + name,
                    None => raw + "anull"@ + name,
                },
            )
            &&& !s.has_audio ==> filters(
                command,
                "anullsrc=channel_layout=stereo:sample_rate=48000:d="@ + seconds_in_six_digits(
                    (if c.duration < 1_000_000 {
                        1_000_000
                    } else {
                        c.duration
                    }) as nat,
                ) + name,
            )
            &&& c.start > until ==> filters(
                command,
                "anullsrc=channel_layout=stereo:sample_rate=48000:d="@ + seconds_in_full(
                    (c.start - until) as nat,
                ) + sound_name("gap"@, k, j),
            )
        }),
{
    let fps = settings.rate();
    let command = content.command(look, range, preset, settings, macos, out_path);
    let (files, v1, overlays, inputs) = content.inputs(fps);
    lemma_inputs(content, fps);
    lemma_sounds_in_graph(content, look, fps);
    let main = look.main_row(seq![], content.v1, v1, content.length);
    let over = look.over_rows(
        main,
        content.overlays,
        overlays,
        content.length,
        content.overlays.len() as int,
    );
    let pictures = with_subtitles(
        over,
        content.subtitles,
        files.keys.len() as int,
        content.subtitles.len() as int,
    ).0;
    let lane = content.sounds[k];
    let s = lane.sounds[j];
    let c = s.clip;
    let before = sound_rows(pictures, content.sounds, inputs, k);
    let label = crate::export_graph::sound_label(decimal(k));
    assert forall|m: int| 0 <= m < lane.sounds.len() implies time_fits(
        (#[trigger] lane.sounds[m]).clip.start + lane.sounds[m].clip.duration,
    ) by {
        assert(time_fits(content.sounds[k].sounds[m].clip.start));
    }
    assert(time_fits(content.sounds[k].sounds[j].clip.start));
    lemma_sound_run(before.0, lane.sounds, label, inputs[k], j);
    let run = sound_run(before.0, lane.sounds, label, inputs[k], j);
    lemma_sound_step(run, s, label, inputs[k][j], j);
    lemma_sound_run_keeps(
        before.0,
        lane.sounds,
        label,
        inputs[k],
        j + 1,
        lane.sounds.len() as int,
    );
    lemma_sound_row_keeps(before, lane, inputs[k], k);
    lemma_sound_rows_keep(
        pictures,
        content.sounds,
        inputs,
        k + 1,
        content.sounds.len() as int,
    );
    let step = with_sound(run, s, label, inputs[k][j], j);
    assert(step == sound_run(before.0, lane.sounds, label, inputs[k], j + 1));
    assert(sound_rows(pictures, content.sounds, inputs, k + 1) == sound_row(
        before,
        lane,
        inputs[k],
        k,
    ));
    assert(keeps(step.parts, content.graph(look, fps).parts));
    assert forall|p: Seq<char>| #[trigger] step.parts.contains(p) implies filters(command, p) by {
        assert(content.graph(look, fps).parts.contains(p));
        lemma_in_graph(content, look, range, preset, settings, macos, out_path, p);
    }
    if s.has_audio {
        let n = inputs[k][j];
        assert(sound_keys(lane.sounds, lane.sounds.len() as int, fps)[j] == media_key(c.file_path));
        assert(are_numbers(
            files,
            inputs[k],
            sound_keys(lane.sounds, lane.sounds.len() as int, fps),
        ));
        lemma_reads(content, look, range, preset, settings, macos, out_path, n, c.file_path);
    }
    if j > 0 {
        assert(time_fits(content.sounds[k].sounds[j - 1].clip.start));
    }
}

// ---------------------------------------------------------------------------
// Rows of sounds and their mix
// ---------------------------------------------------------------------------

/// The names of the first sounds of a row, one behind the other, each behind that of the silence in
/// front of it where there is any.
pub open spec fn sound_list(sounds: Seq<ExportSoundView>, row: int, n: int) -> Seq<char>
    decreases n,
{
    if n <= 0 {
        ""@
    } else {
        let front = sound_list(sounds, row, n - 1);
        (if sounds[n - 1].clip.start > sounds_until(sounds, n - 1) {
            front + sound_name("gap"@, row, n - 1)
        } else {
            front
        }) + sound_name("clip"@, row, n - 1)
    }
}

/// How many names these are.
pub open spec fn sound_list_len(sounds: Seq<ExportSoundView>, n: int) -> int
    decreases n,
{
    if n <= 0 {
        0
    } else if sounds[n - 1].clip.start > sounds_until(sounds, n - 1) {
        sound_list_len(sounds, n - 1) + 2
    } else {
        sound_list_len(sounds, n - 1) + 1
    }
}

/// The names of the first rows of sounds that have any, as loud as they were set.
pub open spec fn row_names(lanes: Seq<ExportAudioLaneView>, n: int) -> Seq<Seq<char>>
    decreases n,
{
    if n <= 0 {
        seq![]
    } else if lanes[n - 1].sounds.len() == 0 {
        row_names(lanes, n - 1)
    } else if lanes[n - 1].volume is Some {
        row_names(lanes, n - 1).push("[a_track_gain_"@ + decimal(n - 1) + "]"@)
    } else {
        row_names(lanes, n - 1).push("[a_track_"@ + decimal(n - 1) + "]"@)
    }
}

/// Texts one behind the other.
pub open spec fn together(list: Seq<Seq<char>>) -> Seq<char>
    decreases list.len(),
{
    if list.len() == 0 {
        seq![]
    } else {
        together(list.drop_last()) + list.last()
    }
}

proof fn lemma_together(list: Seq<Seq<char>>)
    ensures
        joined_by(list, ""@) == together(list),
    decreases list.len(),
{
    reveal_strlit("");
    assert(""@ =~= Seq::<char>::empty());
    if list.len() == 1 {
        assert(together(list.drop_last()) =~= Seq::<char>::empty());
        assert(together(list) =~= list[0]);
    } else if list.len() > 1 {
        lemma_together(list.drop_last());
        assert(joined_by(list, ""@) =~= together(list));
    } else {
        assert(joined_by(list, ""@) =~= together(list));
    }
}

proof fn lemma_sound_names(
    parts: Seq<Seq<char>>,
    sounds: Seq<ExportSoundView>,
    row: int,
    inputs: Seq<int>,
    n: int,
)
    requires
        0 <= n <= sounds.len(),
        forall|j: int|
            0 <= j < sounds.len() ==> time_fits((#[trigger] sounds[j]).clip.start
                + sounds[j].clip.duration),
    ensures
        ({
            let run = sound_run(
                parts,
                sounds,
                crate::export_graph::sound_label(decimal(row)),
                inputs,
                n,
            );
            run.names == sound_list(sounds, row, n) && run.count == sound_list_len(sounds, n)
        }),
    decreases n,
{
    reveal(with_sound);
    if n > 0 {
        lemma_sound_names(parts, sounds, row, inputs, n - 1);
        lemma_sound_run(
            parts,
            sounds,
            crate::export_graph::sound_label(decimal(row)),
            inputs,
            n - 1,
        );
    }
}

proof fn lemma_row_names(
    parts: Seq<Seq<char>>,
    lanes: Seq<ExportAudioLaneView>,
    inputs: Seq<Seq<int>>,
    n: int,
)
    requires
        0 <= n <= lanes.len(),
    ensures
        sound_rows(parts, lanes, inputs, n).1 == row_names(lanes, n),
    decreases n,
{
    reveal(sound_row);
    if n > 0 {
        lemma_row_names(parts, lanes, inputs, n - 1);
    }
}

/// The sounds of a row are played one behind the other, with the silence between them, as loud as the
/// row was set.
pub proof fn exported_sounds_follow_each_other(
    content: ContentView,
    look: LookView,
    range: Option<ExportRange>,
    preset: ExportPreset,
    settings: ExportSettingsView,
    macos: bool,
    out_path: Seq<char>,
    k: int,
)
    requires
        0 <= k < content.sounds.len(),
        content.sounds[k].sounds.len() > 0,
        forall|m: int|
            0 <= m < content.sounds[k].sounds.len() ==> time_fits(
                (#[trigger] content.sounds[k].sounds[m]).clip.start
                    + content.sounds[k].sounds[m].clip.duration,
            ),
    ensures
        ({
            let command = content.command(look, range, preset, settings, macos, out_path);
            let lane = content.sounds[k];
            let n = lane.sounds.len() as int;
            let row = "[a_track_"@ + decimal(k) + "]"@;
            &&& filters(
                command,
                sound_list(lane.sounds, k, n) + "concat=n="@ + decimal(sound_list_len(lane.sounds, n))
                    + ":v=0:a=1"@ + row,
            )
            &&& lane.volume matches Some(v) ==> filters(
                command,
                row + "volume="@ + v + ("[a_track_gain_"@ + decimal(k) + "]"@),
            )
        }),
{
    reveal(sound_row);
    let fps = settings.rate();
    let command = content.command(look, range, preset, settings, macos, out_path);
    let (files, v1, overlays, inputs) = content.inputs(fps);
    lemma_sounds_in_graph(content, look, fps);
    let main = look.main_row(seq![], content.v1, v1, content.length);
    let over = look.over_rows(
        main,
        content.overlays,
        overlays,
        content.length,
        content.overlays.len() as int,
    );
    let pictures = with_subtitles(
        over,
        content.subtitles,
        files.keys.len() as int,
        content.subtitles.len() as int,
    ).0;
    let lane = content.sounds[k];
    let n = lane.sounds.len() as int;
    let before = sound_rows(pictures, content.sounds, inputs, k);
    let label = crate::export_graph::sound_label(decimal(k));
    assert forall|m: int| 0 <= m < lane.sounds.len() implies time_fits(
        (#[trigger] lane.sounds[m]).clip.start + lane.sounds[m].clip.duration,
    ) by {
        assert(time_fits(
            content.sounds[k].sounds[m].clip.start + content.sounds[k].sounds[m].clip.duration,
        ));
    }
    lemma_sound_names(before.0, lane.sounds, k, inputs[k], n);
    lemma_sound_rows_keep(
        pictures,
        content.sounds,
        inputs,
        k + 1,
        content.sounds.len() as int,
    );
    let run = sound_run(before.0, lane.sounds, label, inputs[k], n);
    let tag = crate::export_graph::sound_row_tag(decimal(k));
    let joined = crate::export_graph::sounds_joined(run.names, decimal(run.count), tag);
    lemma_push(run.parts, joined);
    let row = sound_row(before, lane, inputs[k], k);
    assert(sound_rows(pictures, content.sounds, inputs, k + 1) == row);
    if let Some(v) = lane.volume {
        let loud = crate::export_graph::volume_filter(
            tag,
            v,
            crate::export_graph::sound_gain_tag(decimal(k)),
        );
        lemma_push(run.parts.push(joined), loud);
        assert(row.0.contains(loud));
        lemma_in_graph(content, look, range, preset, settings, macos, out_path, loud);
    }
    assert(row.0.contains(joined));
    lemma_in_graph(content, look, range, preset, settings, macos, out_path, joined);
}

/// All rows of sounds are heard together; one alone as it is; and without any there is silence as long
/// as the timeline.
pub proof fn exported_rows_are_mixed(
    content: ContentView,
    look: LookView,
    range: Option<ExportRange>,
    preset: ExportPreset,
    settings: ExportSettingsView,
    macos: bool,
    out_path: Seq<char>,
)
    requires
        time_fits(content.length),
    ensures
        ({
            let command = content.command(look, range, preset, settings, macos, out_path);
            let rows = row_names(content.sounds, content.sounds.len() as int);
            filters(
                command,
                if rows.len() == 0 {
                    "anullsrc=channel_layout=stereo:sample_rate=48000:d="@ + seconds_in_six_digits(
                        (if content.length < 1_000_000 {
                            1_000_000
                        } else {
                            content.length
                        }) as nat,
                    ) + "[aout]"@
                } else if rows.len() == 1 {
                    rows[0] + "volume="@ + "1.0"@ + "[aout]"@
                } else {
                    together(rows) + "amix=inputs="@ + decimal(rows.len() as int)
                        + ":duration=longest:dropout_transition=0[aout]"@
                },
            )
        }),
{
    reveal(ContentView::graph);
    let fps = settings.rate();
    let (files, v1, overlays, inputs) = content.inputs(fps);
    let main = look.main_row(seq![], content.v1, v1, content.length);
    let over = look.over_rows(
        main,
        content.overlays,
        overlays,
        content.length,
        content.overlays.len() as int,
    );
    let pictures = with_subtitles(
        over,
        content.subtitles,
        files.keys.len() as int,
        content.subtitles.len() as int,
    ).0;
    let n = content.sounds.len() as int;
    let (all, mixed) = sound_rows(pictures, content.sounds, inputs, n);
    lemma_row_names(pictures, content.sounds, inputs, n);
    lemma_together(mixed);
    let mix = crate::export_graph::mixed_sound(mixed, content.length);
    lemma_push(all, mix);
    lemma_in_graph(content, look, range, preset, settings, macos, out_path, mix);
}

/// Whether a command says a word behind another.
pub open spec fn says(command: Seq<Seq<char>>, flag: Seq<char>, value: Seq<char>) -> bool {
    exists|i: int|
        0 <= i < command.len() - 1 && command[i] == flag && #[trigger] command[i + 1] == value
}

/// A command writes to the output, which is named last, and takes the mix of the sounds. Where a range
/// is exported, it takes of the mix and of the picture the time from its start to its end.
pub proof fn exported_range_is_cut_out(
    content: ContentView,
    look: LookView,
    range: Option<ExportRange>,
    preset: ExportPreset,
    settings: ExportSettingsView,
    macos: bool,
    out_path: Seq<char>,
)
    requires
        range matches Some(r) ==> time_fits(r.start@) && time_fits(r.end@),
    ensures
        ({
            let command = content.command(look, range, preset, settings, macos, out_path);
            let picture = content.graph(look, settings.rate()).picture;
            &&& command.last() == out_path
            &&& match range {
                None => says(command, "-map"@, "[aout]"@) && (!preset.audio_only() ==> says(
                    command,
                    "-map"@,
                    picture,
                )),
                Some(r) => {
                    let start = seconds_in_six_digits(r.start@ as nat);
                    let end = seconds_in_six_digits(r.end@ as nat);
                    &&& filters(
                        command,
                        "[aout]"@ + "atrim=start="@ + start + ":end="@ + end
                            + ",asetpts=PTS-STARTPTS"@ + "[a_export_trim]"@,
                    )
                    &&& filters(
                        command,
                        picture + "trim=start="@ + start + ":end="@ + end + ",setpts=PTS-STARTPTS"@
                            + "[v_export_trim]"@,
                    )
                    &&& says(command, "-map"@, "[a_export_trim]"@)
                    &&& !preset.audio_only() ==> says(command, "-map"@, "[v_export_trim]"@)
                },
            }
        }),
{
    reveal(ContentView::graph);
    let fps = settings.rate();
    let command = content.command(look, range, preset, settings, macos, out_path);
    let g = content.graph(look, fps);
    let t = g.trimmed(range);
    let c = t.closed(preset.audio_only());
    let files = subtitle_args(
        content.inputs(fps).0.args,
        content.subtitles,
        content.subtitles.len() as int,
        fps,
        content.length,
    );
    let i = files.len() as int;
    if preset.audio_only() {
        let m = i + 2;
        assert(command[m] == "-map"@);
        assert(command[m + 1] == c.sound);
        assert(says(command, "-map"@, c.sound));
    } else {
        let m = i + 2;
        assert(command[m] == "-map"@);
        assert(command[m + 1] == c.picture);
        assert(says(command, "-map"@, c.picture));
        let m = i + 4;
        assert(command[m] == "-map"@);
        assert(command[m + 1] == c.sound);
        assert(says(command, "-map"@, c.sound));
    }
    if let Some(r) = range {
        let n = g.parts.len() as int;
        let a = t.parts[n];
        let b = t.parts[n + 1];
        assert(c.parts[n] == a);
        assert(c.parts[n + 1] == b);
        assert(c.parts.contains(a) && c.parts.contains(b));
        lemma_command_filters(content, look, range, preset, settings, macos, out_path, a);
        lemma_command_filters(content, look, range, preset, settings, macos, out_path, b);
    }
}

// ---------------------------------------------------------------------------
// Pictures
// ---------------------------------------------------------------------------

proof fn lemma_masks_keep(
    layers: Seq<crate::effect::LocalMaskLayer>,
    words: Seq<crate::export_effects::MaskWordsView>,
    n: int,
    prefix: Seq<char>,
    i: int,
    parts: Seq<Seq<char>>,
    input: Seq<char>,
)
    ensures
        keeps(parts, mask_filters(layers, words, n, prefix, i, parts, input).0),
    decreases n,
{
    if n > 0 {
        lemma_masks_keep(layers, words, n - 1, prefix, i, parts, input);
        let before = mask_filters(layers, words, n - 1, prefix, i, parts, input);
        let after = one_mask(layers[n - 1], words[n - 1], n - 1, prefix, i, before);
        let m = before.0.len() as int;
        if after.0.len() > m {
            let a = before.0.push(after.0[m]);
            let b = a.push(after.0[m + 1]);
            assert(b.push(after.0[m + 2]) =~= after.0);
            lemma_push(before.0, after.0[m]);
            lemma_push(a, after.0[m + 1]);
            lemma_push(b, after.0[m + 2]);
        }
    }
}

/// The picture of a clip in a graph: of an input, at a rate, from one time to another; then what is
/// done to it.
pub open spec fn picture_of(
    n: int,
    fps: int,
    from: int,
    to: int,
    rest: (Seq<char>, Seq<char>, Seq<char>, Seq<char>),
) -> Seq<char> {
    "["@ + decimal(n) + ":v:0]fps="@ + decimal(fps) + ",setsar=1,trim=start="@ + seconds_in_six_digits(
        from as nat,
    ) + ":end="@ + seconds_in_six_digits(to as nat) + ",setpts=PTS-STARTPTS,format=bgra"@ + rest.0
        + ",scale=w='"@ + rest.1 + "':h='"@ + rest.2
        + "':force_original_aspect_ratio=decrease:eval=frame"@ + rest.3
}

/// The name of a clip in the graph, by its row and its place in it.
pub open spec fn picture_name_in(label: Seq<char>, what: Seq<char>, i: int) -> Seq<char> {
    "["@ + label + "_"@ + what + "_"@ + decimal(i) + "]"@
}

/// A picture on its canvas.
pub open spec fn laid_on_canvas(
    label: Seq<char>,
    i: int,
    content: Seq<char>,
    x: Seq<char>,
    y: Seq<char>,
) -> Seq<char> {
    picture_name_in(label, "canvas"@, i) + content + "overlay=x="@ + x + ":y="@ + y
        + ":shortest=1:format=auto"@ + picture_name_in(label, "clip"@, i)
}

proof fn lemma_drawn(look: LookView, e: ExportClipView, d: DrawingView, parts: Seq<Seq<char>>)
    requires
        time_fits(e.clip.source_in),
        time_fits(e.clip.duration),
        time_fits(e.clip.source_in + e.clip.duration),
    ensures
        ({
            let after = look.drawn(e, d, parts);
            &&& keeps(parts, after)
            &&& exists|rest: (Seq<char>, Seq<char>, Seq<char>, Seq<char>)|
                after.contains(
                    #[trigger] picture_of(
                        d.input,
                        look.fps,
                        e.clip.source_in,
                        e.clip.source_in + e.clip.duration,
                        rest,
                    ),
                )
            &&& after.contains(
                "color=c=black@0:s="@ + decimal(look.width) + "x"@ + decimal(look.height) + ":r="@
                    + decimal(look.fps) + ":d="@ + seconds_in_full(e.clip.duration as nat)
                    + ",format=bgra"@ + picture_name_in(d.prefix, "canvas"@, d.index),
            )
            &&& exists|content: Seq<char>, x: Seq<char>, y: Seq<char>|
                after.contains(#[trigger] laid_on_canvas(d.prefix, d.index, content, x, y))
        }),
{
    reveal(LookView::drawn);
    reveal(LookView::picture);
    let canvas = crate::export_clip::clip_tag(d.prefix, "canvas"@, decimal(d.index));
    let base = crate::export_clip::clip_tag(d.prefix, "content_base"@, decimal(d.index));
    let empty = crate::export_clip::empty_canvas(
        decimal(look.width),
        decimal(look.height),
        decimal(look.fps),
        crate::filter_words::full(e.clip.duration),
        canvas,
    );
    let picture = look.picture(e.clip, e.words, d.input, d.mode, d.include_dissolve, base);
    let rest = (
        look.colors(e.clip, e.words),
        crate::export_clip::canvas_side(look.width_words, e.words.scale_expr(e.clip)),
        crate::export_clip::canvas_side(look.height_words, e.words.scale_expr(e.clip)),
        look.tail(e.clip, e.words, d.mode, d.include_dissolve, base),
    );
    assert(picture == picture_of(
        d.input,
        look.fps,
        e.clip.source_in,
        e.clip.source_in + e.clip.duration,
        rest,
    ));
    lemma_push(parts, empty);
    lemma_push(parts.push(empty), picture);
    let two = parts.push(empty).push(picture);
    let (front, tag) = look.masked(e, d, two, base);
    if !look.without_masks {
        lemma_masks_keep(
            e.clip.shown_layers(),
            e.words.masks,
            e.clip.shown_layers().len() as int,
            d.prefix,
            d.index,
            two,
            base,
        );
    }
    let last = crate::export_clip::onto_canvas(
        canvas,
        tag,
        crate::export_clip::offset("(W-w)"@, e.words.x_expr(e.clip), look.width_words),
        crate::export_clip::offset("(H-h)"@, e.words.y_expr(e.clip), look.height_words),
        crate::export_clip::drawn_tag(d),
    );
    lemma_push(front, last);
    assert(last == laid_on_canvas(
        d.prefix,
        d.index,
        tag,
        crate::export_clip::offset("(W-w)"@, e.words.x_expr(e.clip), look.width_words),
        crate::export_clip::offset("(H-h)"@, e.words.y_expr(e.clip), look.height_words),
    ));
    let after = look.drawn(e, d, parts);
    assert(after.contains(picture));
    assert(after.contains(empty));
    assert(after.contains(last));
}

/// The time up to which a row of pictures is filled in front of the one at a place. A row over others
/// goes on where it has come to.
pub open spec fn pictures_until(clips: Seq<ExportClipView>, over: bool, i: int) -> int
    decreases i,
{
    if i <= 0 {
        0
    } else {
        let c = clips[i - 1].clip;
        let before = pictures_until(clips, over, i - 1);
        if over && before > c.start {
            before + c.duration
        } else {
            c.start + c.duration
        }
    }
}

/// Whether the times of a row of pictures can be written down.
pub open spec fn pictures_fit(clips: Seq<ExportClipView>, over: bool) -> bool {
    &&& forall|j: int|
        0 <= j < clips.len() ==> {
            let c = (#[trigger] clips[j]).clip;
            time_fits(c.start) && time_fits(c.duration) && time_fits(c.source_in) && time_fits(
                c.source_in + c.duration,
            )
        }
    &&& forall|j: int| 0 <= j <= clips.len() ==> time_fits(#[trigger] pictures_until(clips, over, j))
}

/// The names of the first pictures of a row, one behind the other, each behind that of the gap in
/// front of it where there is one.
pub open spec fn picture_list(
    clips: Seq<ExportClipView>,
    label: Seq<char>,
    over: bool,
    n: int,
) -> Seq<char>
    decreases n,
{
    if n <= 0 {
        ""@
    } else {
        let front = picture_list(clips, label, over, n - 1);
        (if clips[n - 1].clip.start > pictures_until(clips, over, n - 1) {
            front + ("["@ + label + "_gap_"@ + decimal(n - 1) + "]"@)
        } else {
            front
        }) + picture_name_in(label, "clip"@, n - 1)
    }
}

/// How many names these are.
pub open spec fn picture_list_len(clips: Seq<ExportClipView>, over: bool, n: int) -> int
    decreases n,
{
    if n <= 0 {
        0
    } else if clips[n - 1].clip.start > pictures_until(clips, over, n - 1) {
        picture_list_len(clips, over, n - 1) + 2
    } else {
        picture_list_len(clips, over, n - 1) + 1
    }
}

/// A picture of one colour for some time.
pub open spec fn plain_picture(
    look: LookView,
    over: bool,
    length: int,
    name: Seq<char>,
) -> Seq<char> {
    "color=c="@ + (if over {
        "black@0"@
    } else {
        "black"@
    }) + ":s="@ + decimal(look.width) + "x"@ + decimal(look.height) + ":r="@ + decimal(look.fps)
        + ":d="@ + seconds_in_full(length as nat) + ",format=bgra"@ + name
}

proof fn lemma_clip_step(
    look: LookView,
    run: LaneRun,
    kind: LaneKind,
    e: ExportClipView,
    input: int,
    i: int,
)
    requires
        time_fits(e.clip.source_in),
        time_fits(e.clip.duration),
        time_fits(e.clip.start),
        time_fits(e.clip.source_in + e.clip.duration),
        time_fits(run.cursor),
    ensures
        ({
            let after = look.with_clip(run, kind, e, input, i);
            &&& keeps(run.parts, after.parts)
            &&& exists|rest: (Seq<char>, Seq<char>, Seq<char>, Seq<char>)|
                after.parts.contains(
                    #[trigger] picture_of(
                        input,
                        look.fps,
                        e.clip.source_in,
                        e.clip.source_in + e.clip.duration,
                        rest,
                    ),
                )
            &&& after.parts.contains(
                "color=c=black@0:s="@ + decimal(look.width) + "x"@ + decimal(look.height) + ":r="@
                    + decimal(look.fps) + ":d="@ + seconds_in_full(e.clip.duration as nat)
                    + ",format=bgra"@ + picture_name_in(kind.label, "canvas"@, i),
            )
            &&& e.clip.start > run.cursor ==> after.parts.contains(
                plain_picture(
                    look,
                    kind.over,
                    e.clip.start - run.cursor,
                    "["@ + kind.label + "_gap_"@ + decimal(i) + "]"@,
                ),
            )
        }),
{
    reveal(LookView::with_clip);
    let d = DrawingView {
        input,
        prefix: kind.label,
        index: i,
        mode: kind.mode(),
        include_dissolve: false,
    };
    let g = look.with_gap(run, kind, e.clip.start, i);
    if e.clip.start > run.cursor {
        lemma_push(run.parts, g.parts[run.parts.len() as int]);
        assert(run.parts.push(g.parts[run.parts.len() as int]) =~= g.parts);
    }
    lemma_drawn(look, e, d, g.parts);
}

proof fn lemma_lane_run(
    look: LookView,
    parts: Seq<Seq<char>>,
    kind: LaneKind,
    clips: Seq<ExportClipView>,
    inputs: Seq<int>,
    n: int,
)
    requires
        0 <= n <= clips.len(),
        pictures_fit(clips, kind.over),
    ensures
        ({
            let run = look.lane_run(parts, kind, clips, inputs, n);
            &&& run.cursor == pictures_until(clips, kind.over, n)
            &&& run.names == picture_list(clips, kind.label, kind.over, n)
            &&& run.count == picture_list_len(clips, kind.over, n)
        }),
    decreases n,
{
    reveal(LookView::with_clip);
    if n > 0 {
        lemma_lane_run(look, parts, kind, clips, inputs, n - 1);
        assert(time_fits(pictures_until(clips, kind.over, n)));
        assert(time_fits(clips[n - 1].clip.start));
    }
}

proof fn lemma_lane_run_keeps(
    look: LookView,
    parts: Seq<Seq<char>>,
    kind: LaneKind,
    clips: Seq<ExportClipView>,
    inputs: Seq<int>,
    m: int,
    n: int,
)
    requires
        0 <= m <= n <= clips.len(),
        pictures_fit(clips, kind.over),
    ensures
        keeps(
            look.lane_run(parts, kind, clips, inputs, m).parts,
            look.lane_run(parts, kind, clips, inputs, n).parts,
        ),
    decreases n - m,
{
    if m < n {
        lemma_lane_run_keeps(look, parts, kind, clips, inputs, m, n - 1);
        lemma_lane_run(look, parts, kind, clips, inputs, n - 1);
        assert(time_fits(clips[n - 1].clip.start));
        assert(time_fits(pictures_until(clips, kind.over, n - 1)));
        lemma_clip_step(
            look,
            look.lane_run(parts, kind, clips, inputs, n - 1),
            kind,
            clips[n - 1],
            inputs[n - 1],
            n - 1,
        );
    }
}

/// What a row of pictures has of its clips.
spec fn row_shows(
    look: LookView,
    label: Seq<char>,
    over: bool,
    tag: Seq<char>,
    clips: Seq<ExportClipView>,
    inputs: Seq<int>,
    length: int,
    parts: Seq<Seq<char>>,
) -> bool {
    let n = clips.len() as int;
    let until = pictures_until(clips, over, n);
    let open = until < length;
    let end = "["@ + label + "_gap_end]"@;
    let names = picture_list(clips, label, over, n);
    &&& parts.contains(
        (if open {
            names + end
        } else {
            names
        }) + "concat=n="@ + decimal(
            picture_list_len(clips, over, n) + if open {
                1int
            } else {
                0
            },
        ) + ":v=1:a=0,format=bgra"@ + tag,
    )
    &&& open ==> parts.contains(plain_picture(look, over, length - until, end))
    &&& forall|i: int|
        0 <= i < n ==> {
            let c = (#[trigger] clips[i]).clip;
            let before = pictures_until(clips, over, i);
            &&& exists|rest: (Seq<char>, Seq<char>, Seq<char>, Seq<char>)|
                parts.contains(
                    #[trigger] picture_of(
                        inputs[i],
                        look.fps,
                        c.source_in,
                        c.source_in + c.duration,
                        rest,
                    ),
                )
            &&& parts.contains(
                "color=c=black@0:s="@ + decimal(look.width) + "x"@ + decimal(look.height) + ":r="@
                    + decimal(look.fps) + ":d="@ + seconds_in_full(c.duration as nat)
                    + ",format=bgra"@ + picture_name_in(label, "canvas"@, i),
            )
            &&& c.start > before ==> parts.contains(
                plain_picture(
                    look,
                    over,
                    c.start - before,
                    "["@ + label + "_gap_"@ + decimal(i) + "]"@,
                ),
            )
        }
}

proof fn lemma_row_joined(
    look: LookView,
    parts: Seq<Seq<char>>,
    kind: LaneKind,
    tag: Seq<char>,
    clips: Seq<ExportClipView>,
    inputs: Seq<int>,
    length: int,
)
    requires
        clips.len() > 0,
        pictures_fit(clips, kind.over),
        time_fits(length),
    ensures
        ({
            let run = look.lane_run(parts, kind, clips, inputs, clips.len() as int);
            let out = look.lane_joined(look.with_end(run, kind, length), tag);
            row_shows(look, kind.label, kind.over, tag, clips, inputs, length, out) && keeps(
                parts,
                out,
            )
        }),
{
    let n = clips.len() as int;
    let run = look.lane_run(parts, kind, clips, inputs, n);
    lemma_lane_run(look, parts, kind, clips, inputs, n);
    lemma_lane_run_keeps(look, parts, kind, clips, inputs, 0, n);
    let ended = look.with_end(run, kind, length);
    let out = look.lane_joined(ended, tag);
    assert(time_fits(pictures_until(clips, kind.over, n)));
    if run.cursor < length {
        lemma_push(run.parts, ended.parts[run.parts.len() as int]);
        assert(run.parts.push(ended.parts[run.parts.len() as int]) =~= ended.parts);
    }
    lemma_push(ended.parts, out[ended.parts.len() as int]);
    assert(ended.parts.push(out[ended.parts.len() as int]) =~= out);
    assert(keeps(run.parts, out));
    assert forall|i: int| 0 <= i < n implies {
        let c = (#[trigger] clips[i]).clip;
        let before = pictures_until(clips, kind.over, i);
        &&& exists|rest: (Seq<char>, Seq<char>, Seq<char>, Seq<char>)|
            out.contains(
                #[trigger] picture_of(
                    inputs[i],
                    look.fps,
                    c.source_in,
                    c.source_in + c.duration,
                    rest,
                ),
            )
        &&& out.contains(
            "color=c=black@0:s="@ + decimal(look.width) + "x"@ + decimal(look.height) + ":r="@
                + decimal(look.fps) + ":d="@ + seconds_in_full(c.duration as nat) + ",format=bgra"@
                + picture_name_in(kind.label, "canvas"@, i),
        )
        &&& c.start > before ==> out.contains(
            plain_picture(
                look,
                kind.over,
                c.start - before,
                "["@ + kind.label + "_gap_"@ + decimal(i) + "]"@,
            ),
        )
    } by {
        let c = clips[i].clip;
        assert(time_fits(c.start));
        assert(time_fits(pictures_until(clips, kind.over, i)));
        let at = look.lane_run(parts, kind, clips, inputs, i);
        lemma_lane_run(look, parts, kind, clips, inputs, i);
        lemma_clip_step(look, at, kind, clips[i], inputs[i], i);
        lemma_lane_run_keeps(look, parts, kind, clips, inputs, i + 1, n);
        let step = look.with_clip(at, kind, clips[i], inputs[i], i);
        assert(step == look.lane_run(parts, kind, clips, inputs, i + 1));
        let rest = choose|rest: (Seq<char>, Seq<char>, Seq<char>, Seq<char>)|
            step.parts.contains(
                #[trigger] picture_of(
                    inputs[i],
                    look.fps,
                    c.source_in,
                    c.source_in + c.duration,
                    rest,
                ),
            );
        assert(out.contains(
            picture_of(inputs[i], look.fps, c.source_in, c.source_in + c.duration, rest),
        ));
    }
}

/// The name of a picture in the making of a dissolve.
pub open spec fn step_name(base: Seq<char>, what: Seq<char>, i: int) -> Seq<char> {
    "["@ + base + "_dissolve_"@ + what + "_"@ + decimal(i) + "]"@
}

/// A blend that lies over a row from one time to another.
pub open spec fn laid_over(
    below: Seq<char>,
    base: Seq<char>,
    i: int,
    start: Seq<char>,
    end: Seq<char>,
) -> Seq<char> {
    below + step_name(base, "timed"@, i)
        + "overlay=0:0:format=auto:eof_action=pass:enable='between(t,"@ + start + ","@ + end + ")'"@
        + step_name(base, "comp"@, i)
}

proof fn lemma_dissolve_keeps(
    look: LookView,
    parts: Seq<Seq<char>>,
    below: Seq<char>,
    base: Seq<char>,
    over: bool,
    d: crate::export_graph::Dissolve,
    inputs: (int, int),
    i: int,
)
    requires
        time_fits(d.left.clip.source_in),
        time_fits(d.left.clip.duration),
        time_fits(d.left.clip.source_in + d.left.clip.duration),
        time_fits(d.right.clip.source_in),
        time_fits(d.right.clip.duration),
        time_fits(d.right.clip.source_in + d.right.clip.duration),
        time_fits(d.start),
        time_fits(d.length),
        time_fits(d.start + d.length),
    ensures
        ({
            let after = look.with_dissolve(parts, below, base, over, d, inputs, i);
            let length = seconds_in_six_digits(d.length as nat);
            let start = seconds_in_six_digits(d.start as nat);
            let end = seconds_in_six_digits((d.start + d.length) as nat);
            &&& keeps(parts, after)
            &&& exists|rest: (Seq<char>, Seq<char>, Seq<char>, Seq<char>)|
                after.contains(
                    #[trigger] picture_of(
                        inputs.0,
                        look.fps,
                        d.left.clip.source_in,
                        d.left.clip.source_in + d.left.clip.duration,
                        rest,
                    ),
                )
            &&& exists|rest: (Seq<char>, Seq<char>, Seq<char>, Seq<char>)|
                after.contains(
                    #[trigger] picture_of(
                        inputs.1,
                        look.fps,
                        d.right.clip.source_in,
                        d.right.clip.source_in + d.right.clip.duration,
                        rest,
                    ),
                )
            &&& after.contains(
                picture_name_in(base + "_dissolve_"@ + "l"@, "clip"@, i) + picture_name_in(
                    base + "_dissolve_"@ + "r"@,
                    "clip"@,
                    i,
                ) + "blend=all_expr='A*(1-clip(T/"@ + length + ",0,1))+B*clip(T/"@ + length
                    + ",0,1)':shortest=1,format=bgra"@ + step_name(base, "blend"@, i),
            )
            &&& after.contains(
                step_name(base, "blend"@, i) + "setpts=PTS-STARTPTS+"@ + start + "/TB"@ + step_name(base, "timed"@, i),
            )
            &&& after.contains(laid_over(below, base, i, start, end))
        }),
{
    reveal(LookView::with_dissolve);
    let mode = (LaneKind { label: base, over }).mode();
    let left = DrawingView {
        input: inputs.0,
        prefix: crate::export_graph::side_label(base, "l"@),
        index: i,
        mode,
        include_dissolve: false,
    };
    let right = DrawingView {
        input: inputs.1,
        prefix: crate::export_graph::side_label(base, "r"@),
        index: i,
        mode,
        include_dissolve: false,
    };
    lemma_drawn(look, d.left, left, parts);
    let a = look.drawn(d.left, left, parts);
    lemma_drawn(look, d.right, right, a);
    let b = look.drawn(d.right, right, a);
    let after = look.with_dissolve(parts, below, base, over, d, inputs, i);
    let n = b.len() as int;
    lemma_push(b, after[n]);
    lemma_push(b.push(after[n]), after[n + 1]);
    lemma_push(b.push(after[n]).push(after[n + 1]), after[n + 2]);
    assert(b.push(after[n]).push(after[n + 1]).push(after[n + 2]) =~= after);
    let r = choose|rest: (Seq<char>, Seq<char>, Seq<char>, Seq<char>)|
        a.contains(
            #[trigger] picture_of(
                inputs.0,
                look.fps,
                d.left.clip.source_in,
                d.left.clip.source_in + d.left.clip.duration,
                rest,
            ),
        );
    assert(after.contains(
        picture_of(
            inputs.0,
            look.fps,
            d.left.clip.source_in,
            d.left.clip.source_in + d.left.clip.duration,
            r,
        ),
    ));
    let r = choose|rest: (Seq<char>, Seq<char>, Seq<char>, Seq<char>)|
        b.contains(
            #[trigger] picture_of(
                inputs.1,
                look.fps,
                d.right.clip.source_in,
                d.right.clip.source_in + d.right.clip.duration,
                rest,
            ),
        );
    assert(after.contains(
        picture_of(
            inputs.1,
            look.fps,
            d.right.clip.source_in,
            d.right.clip.source_in + d.right.clip.duration,
            r,
        ),
    ));
}

/// How long the dissolve between two clips takes: as long as was wanted, but no longer than either
/// clip, nor on the main row than what the file of the first has left behind what is shown.
pub open spec fn blend_time(left: crate::clip::ClipView, right: crate::clip::ClipView, wanted: int, over: bool) -> int {
    let left_over = left.media_duration - (left.source_in + left.duration);
    let most = if wanted <= left.duration && wanted <= right.duration {
        wanted
    } else if left.duration <= right.duration {
        left.duration
    } else {
        right.duration
    };
    if over || most <= left_over {
        most
    } else if left_over > 0 {
        left_over
    } else {
        0
    }
}

/// Whether the times of a cut of a row can be written down: those of both clips, and the dissolve lies
/// within them.
pub open spec fn cut_fits(
    left: crate::clip::ClipView,
    right: crate::clip::ClipView,
    wanted: int,
    over: bool,
    center: int,
) -> bool {
    let length = blend_time(left, right, wanted, over);
    &&& time_fits(left.media_duration)
    &&& time_fits(wanted)
    &&& time_fits(center)
    &&& time_fits(left.source_in + left.duration + length)
    &&& time_fits(right.source_in + length)
    &&& time_fits(center + length)
}

/// A time earlier by another, but not before the start.
pub open spec fn back_by(t: int, by: int) -> int {
    if t < by {
        0
    } else {
        t - by
    }
}

/// Where the second clip of each cut comes in the row.
pub open spec fn place_in_row(clips: Seq<ExportClipView>, over: bool, i: int) -> int {
    let c = clips[i].clip;
    if over && pictures_until(clips, over, i) > c.start {
        pictures_until(clips, over, i)
    } else {
        c.start
    }
}

proof fn lemma_dissolve_of(
    left: crate::clip::ClipView,
    right: crate::clip::ClipView,
    cut: crate::export_graph::DissolveCutView,
    over: bool,
    center: int,
)
    requires
        cut_fits(left, right, cut.wanted, over, center),
        time_fits(left.source_in),
        time_fits(left.duration),
        time_fits(left.source_in + left.duration),
        time_fits(right.source_in),
        time_fits(right.duration),
    ensures
        ({
            let d = crate::export_graph::dissolve_of(left, right, cut, over, center);
            let length = blend_time(left, right, cut.wanted, over);
            let half = length / 2;
            &&& d.length == length
            &&& d.start == back_by(center, half)
            &&& d.left.clip.source_in == left.source_in + left.duration - half
            &&& d.left.clip.duration == length
            &&& d.right.clip.source_in == back_by(right.source_in, half)
            &&& d.right.clip.duration == length
            &&& 0 <= length <= left.duration
        }),
{
    reveal(crate::export_graph::dissolve_of);
    reveal(crate::clip::ClipView::segment);
}

proof fn lemma_dissolves_keep(
    look: LookView,
    parts: Seq<Seq<char>>,
    tag: Seq<char>,
    base: Seq<char>,
    over: bool,
    lane: ExportLaneView,
    inputs: Seq<int>,
    centers: Seq<int>,
    m: int,
    n: int,
)
    requires
        0 <= m <= n <= lane.clips.len() - 1,
        lane.cuts.len() >= n,
        pictures_fit(lane.clips, over),
        forall|j: int|
            0 <= j < n ==> cut_fits(
                (#[trigger] lane.clips[j]).clip,
                lane.clips[j + 1].clip,
                lane.cuts[j].wanted,
                over,
                centers[j + 1],
            ),
    ensures
        keeps(
            look.with_dissolves(parts, tag, base, over, lane, inputs, centers, m).0,
            look.with_dissolves(parts, tag, base, over, lane, inputs, centers, n).0,
        ),
    decreases n - m,
{
    if m < n {
        lemma_dissolves_keep(look, parts, tag, base, over, lane, inputs, centers, m, n - 1);
        let (front, below) = look.with_dissolves(
            parts,
            tag,
            base,
            over,
            lane,
            inputs,
            centers,
            n - 1,
        );
        let left = lane.clips[n - 1].clip;
        let right = lane.clips[n].clip;
        if crate::export_graph::dissolves(left, right, over) {
            assert(cut_fits(
                lane.clips[n - 1].clip,
                lane.clips[n - 1 + 1].clip,
                lane.cuts[n - 1].wanted,
                over,
                centers[n - 1 + 1],
            ));
            assert(time_fits(lane.clips[n - 1].clip.start));
            assert(time_fits(lane.clips[n].clip.start));
            lemma_dissolve_of(left, right, lane.cuts[n - 1], over, centers[n]);
            lemma_dissolve_keeps(
                look,
                front,
                below,
                base,
                over,
                crate::export_graph::dissolve_of(left, right, lane.cuts[n - 1], over, centers[n]),
                (inputs[n - 1], inputs[n]),
                n - 1,
            );
        }
    }
}

/// Whether a lane can be exported: its times and those of its cuts can be written down.
pub open spec fn lane_fits(lane: ExportLaneView, over: bool) -> bool {
    &&& pictures_fit(lane.clips, over)
    &&& lane.clips.len() > 0 ==> lane.cuts.len() == lane.clips.len() - 1
    &&& forall|j: int|
        0 <= j < lane.clips.len() - 1 ==> cut_fits(
            (#[trigger] lane.clips[j]).clip,
            lane.clips[j + 1].clip,
            lane.cuts[j].wanted,
            over,
            place_in_row(lane.clips, over, j + 1),
        )
}

proof fn lemma_centers(
    look: LookView,
    parts: Seq<Seq<char>>,
    kind: LaneKind,
    clips: Seq<ExportClipView>,
    inputs: Seq<int>,
    n: int,
)
    requires
        0 <= n <= clips.len(),
        pictures_fit(clips, kind.over),
    ensures
        look.lane_run(parts, kind, clips, inputs, n).starts.len() == n,
        forall|j: int|
            0 <= j < n ==> #[trigger] look.lane_run(parts, kind, clips, inputs, n).starts[j]
                == place_in_row(clips, kind.over, j),
    decreases n,
{
    reveal(LookView::with_clip);
    if n > 0 {
        lemma_centers(look, parts, kind, clips, inputs, n - 1);
        lemma_lane_run(look, parts, kind, clips, inputs, n - 1);
    }
}

/// A row over the others keeps what was there, and shows its clips.
proof fn lemma_over_row(
    look: LookView,
    before: (Seq<Seq<char>>, Seq<char>),
    lane: ExportLaneView,
    inputs: Seq<int>,
    length: int,
    i: int,
)
    requires
        lane_fits(lane, true),
        time_fits(length),
    ensures
        keeps(before.0, look.over_row(before, lane, inputs, length, i).0),
        lane.clips.len() > 0 ==> row_shows(
            look,
            "overlay_v"@ + decimal(i),
            true,
            "[v_layer_"@ + decimal(i) + "]"@,
            lane.clips,
            inputs,
            length,
            look.over_row(before, lane, inputs, length, i).0,
        ),
{
    reveal(LookView::over_row);
    if lane.clips.len() > 0 {
        let kind = LaneKind {
            label: crate::export_graph::lane_label(decimal(i)),
            over: true,
        };
        let tag = crate::export_graph::layer_tag(decimal(i));
        let n = lane.clips.len() as int;
        let run = look.lane_run(before.0, kind, lane.clips, inputs, n);
        lemma_row_joined(look, before.0, kind, tag, lane.clips, inputs, length);
        lemma_centers(look, before.0, kind, lane.clips, inputs, n);
        let joined = look.lane_joined(look.with_end(run, kind, length), tag);
        let base = crate::export_graph::base_layer(decimal(i));
        assert forall|j: int| 0 <= j < n - 1 implies cut_fits(
            (#[trigger] lane.clips[j]).clip,
            lane.clips[j + 1].clip,
            lane.cuts[j].wanted,
            true,
            run.starts[j + 1],
        ) by {
            assert(run.starts[j + 1] == place_in_row(lane.clips, true, j + 1));
        }
        lemma_dissolves_keep(
            look,
            joined,
            tag,
            base,
            true,
            lane,
            inputs,
            run.starts,
            0,
            lane.cut_count(),
        );
        let (parts, row) = look.with_dissolves(
            joined,
            tag,
            base,
            true,
            lane,
            inputs,
            run.starts,
            lane.cut_count(),
        );
        let next = crate::export_graph::composed_tag(decimal(i));
        lemma_push(parts, crate::export_graph::overlay_filter(before.1, row, next));
        let out = look.over_row(before, lane, inputs, length, i).0;
        assert(keeps(joined, out));
        lemma_row_shows_kept(
            look,
            kind.label,
            true,
            tag,
            lane.clips,
            inputs,
            length,
            joined,
            out,
        );
    }
}

proof fn lemma_row_shows_kept(
    look: LookView,
    label: Seq<char>,
    over: bool,
    tag: Seq<char>,
    clips: Seq<ExportClipView>,
    inputs: Seq<int>,
    length: int,
    a: Seq<Seq<char>>,
    b: Seq<Seq<char>>,
)
    requires
        row_shows(look, label, over, tag, clips, inputs, length, a),
        keeps(a, b),
    ensures
        row_shows(look, label, over, tag, clips, inputs, length, b),
{
    assert forall|i: int| 0 <= i < clips.len() implies {
        let c = (#[trigger] clips[i]).clip;
        exists|rest: (Seq<char>, Seq<char>, Seq<char>, Seq<char>)|
            b.contains(
                #[trigger] picture_of(
                    inputs[i],
                    look.fps,
                    c.source_in,
                    c.source_in + c.duration,
                    rest,
                ),
            )
    } by {
        let c = clips[i].clip;
        let rest = choose|rest: (Seq<char>, Seq<char>, Seq<char>, Seq<char>)|
            a.contains(
                #[trigger] picture_of(
                    inputs[i],
                    look.fps,
                    c.source_in,
                    c.source_in + c.duration,
                    rest,
                ),
            );
        assert(b.contains(
            picture_of(inputs[i], look.fps, c.source_in, c.source_in + c.duration, rest),
        ));
    }
}

proof fn lemma_main_row(
    look: LookView,
    parts: Seq<Seq<char>>,
    lane: ExportLaneView,
    inputs: Seq<int>,
    length: int,
)
    requires
        lane_fits(lane, false),
        time_fits(length),
        lane.clips.len() > 0,
    ensures
        row_shows(
            look,
            "v1"@,
            false,
            "[v_base]"@,
            lane.clips,
            inputs,
            length,
            look.main_row(parts, lane, inputs, length).0,
        ),
{
    reveal(LookView::main_row);
    let kind = LaneKind { label: "v1"@, over: false };
    let n = lane.clips.len() as int;
    let run = look.lane_run(parts, kind, lane.clips, inputs, n);
    lemma_row_joined(look, parts, kind, "[v_base]"@, lane.clips, inputs, length);
    let joined = look.lane_joined(look.with_end(run, kind, length), "[v_base]"@);
    let centers = crate::export_graph::own_starts(lane.clips);
    assert forall|j: int| 0 <= j < n - 1 implies cut_fits(
        (#[trigger] lane.clips[j]).clip,
        lane.clips[j + 1].clip,
        lane.cuts[j].wanted,
        false,
        centers[j + 1],
    ) by {
        assert(centers[j + 1] == place_in_row(lane.clips, false, j + 1));
    }
    lemma_dissolves_keep(
        look,
        joined,
        "[v_base]"@,
        "v1"@,
        false,
        lane,
        inputs,
        centers,
        0,
        lane.cut_count(),
    );
    lemma_row_shows_kept(
        look,
        "v1"@,
        false,
        "[v_base]"@,
        lane.clips,
        inputs,
        length,
        joined,
        look.main_row(parts, lane, inputs, length).0,
    );
}

proof fn lemma_over_rows_keep(
    look: LookView,
    before: (Seq<Seq<char>>, Seq<char>),
    lanes: Seq<ExportLaneView>,
    inputs: Seq<Seq<int>>,
    length: int,
    m: int,
    n: int,
)
    requires
        0 <= m <= n <= lanes.len(),
        time_fits(length),
        forall|k: int| 0 <= k < lanes.len() ==> lane_fits(#[trigger] lanes[k], true),
    ensures
        keeps(
            look.over_rows(before, lanes, inputs, length, m).0,
            look.over_rows(before, lanes, inputs, length, n).0,
        ),
    decreases n - m,
{
    if m < n {
        lemma_over_rows_keep(look, before, lanes, inputs, length, m, n - 1);
        assert(lane_fits(lanes[n - 1], true));
        lemma_over_row(
            look,
            look.over_rows(before, lanes, inputs, length, n - 1),
            lanes[n - 1],
            inputs[n - 1],
            length,
            n - 1,
        );
    }
}

proof fn lemma_subtitles_keep(
    before: (Seq<Seq<char>>, Seq<char>),
    subtitles: Seq<SubtitleOverlayView>,
    first: int,
    m: int,
    n: int,
)
    requires
        0 <= m <= n <= subtitles.len(),
    ensures
        keeps(
            with_subtitles(before, subtitles, first, m).0,
            with_subtitles(before, subtitles, first, n).0,
        ),
    decreases n - m,
{
    if m < n {
        lemma_subtitles_keep(before, subtitles, first, m, n - 1);
        let a = with_subtitles(before, subtitles, first, n - 1).0;
        let b = with_subtitles(before, subtitles, first, n).0;
        lemma_push(a, b[a.len() as int]);
        lemma_push(a.push(b[a.len() as int]), b[a.len() + 1int]);
        assert(a.push(b[a.len() as int]).push(b[a.len() + 1int]) =~= b);
    }
}

/// Whether a content can be exported: all its times can be written down.
pub open spec fn content_fits(content: ContentView) -> bool {
    &&& time_fits(content.length)
    &&& lane_fits(content.v1, false)
    &&& forall|k: int| 0 <= k < content.overlays.len() ==> lane_fits(#[trigger] content.overlays[k], true)
}

/// The filters that a graph has of its pictures.
proof fn lemma_pictures_in_graph(content: ContentView, look: LookView, fps: int)
    requires
        content_fits(content),
    ensures
        ({
            let (files, v1, overlays, sounds) = content.inputs(fps);
            let main = look.main_row(seq![], content.v1, v1, content.length);
            let n = content.overlays.len() as int;
            let over = look.over_rows(main, content.overlays, overlays, content.length, n);
            let m = content.subtitles.len() as int;
            &&& keeps(main.0, content.graph(look, fps).parts)
            &&& keeps(over.0, content.graph(look, fps).parts)
            &&& keeps(
                with_subtitles(over, content.subtitles, files.keys.len() as int, m).0,
                content.graph(look, fps).parts,
            )
        }),
{
    let (files, v1, overlays, sounds) = content.inputs(fps);
    let main = look.main_row(seq![], content.v1, v1, content.length);
    let n = content.overlays.len() as int;
    let over = look.over_rows(main, content.overlays, overlays, content.length, n);
    let m = content.subtitles.len() as int;
    let pictures = with_subtitles(over, content.subtitles, files.keys.len() as int, m).0;
    lemma_over_rows_keep(look, main, content.overlays, overlays, content.length, 0, n);
    lemma_subtitles_keep(over, content.subtitles, files.keys.len() as int, 0, m);
    lemma_sound_rows_keep(pictures, content.sounds, sounds, 0, content.sounds.len() as int);
    lemma_sounds_in_graph(content, look, fps);
}

/// Whether a command shows the clips of a row: each from its piece of its file for as long as it lasts,
/// behind a plain picture up to its start where the row is not yet filled up to there, all one behind
/// the other, and a plain picture up to the end of the timeline. A file that is not a still picture
/// is read under the number that is used.
pub open spec fn shows_row(
    command: Seq<Seq<char>>,
    look: LookView,
    label: Seq<char>,
    over: bool,
    tag: Seq<char>,
    clips: Seq<ExportClipView>,
    length: int,
) -> bool {
    let n = clips.len() as int;
    let until = pictures_until(clips, over, n);
    let open = until < length;
    let end = "["@ + label + "_gap_end]"@;
    let names = picture_list(clips, label, over, n);
    &&& filters(
        command,
        (if open {
            names + end
        } else {
            names
        }) + "concat=n="@ + decimal(
            picture_list_len(clips, over, n) + if open {
                1int
            } else {
                0
            },
        ) + ":v=1:a=0,format=bgra"@ + tag,
    )
    &&& open ==> filters(command, plain_picture(look, over, length - until, end))
    &&& forall|i: int|
        0 <= i < n ==> shows_clip(command, look, label, over, clips, i, #[trigger] clips[i].clip)
}

/// Whether a command shows the clip at a place of a row.
pub open spec fn shows_clip(
    command: Seq<Seq<char>>,
    look: LookView,
    label: Seq<char>,
    over: bool,
    clips: Seq<ExportClipView>,
    i: int,
    c: crate::clip::ClipView,
) -> bool {
    let before = pictures_until(clips, over, i);
    &&& exists|k: int, rest: (Seq<char>, Seq<char>, Seq<char>, Seq<char>)|
        filters(
            command,
            #[trigger] picture_of(k, look.fps, c.source_in, c.source_in + c.duration, rest),
        ) && (crate::export_graph::still_length(c) is None ==> reads(command, k, c.file_path))
    &&& filters(
        command,
        "color=c=black@0:s="@ + decimal(look.width) + "x"@ + decimal(look.height) + ":r="@ + decimal(
            look.fps,
        ) + ":d="@ + seconds_in_full(c.duration as nat) + ",format=bgra"@ + picture_name_in(
            label,
            "canvas"@,
            i,
        ),
    )
    &&& c.start > before ==> filters(
        command,
        plain_picture(look, over, c.start - before, "["@ + label + "_gap_"@ + decimal(i) + "]"@),
    )
}

proof fn lemma_shows_row(
    content: ContentView,
    look: LookView,
    range: Option<ExportRange>,
    preset: ExportPreset,
    settings: ExportSettingsView,
    macos: bool,
    out_path: Seq<char>,
    label: Seq<char>,
    over: bool,
    tag: Seq<char>,
    clips: Seq<ExportClipView>,
    inputs: Seq<int>,
)
    requires
        row_shows(
            look,
            label,
            over,
            tag,
            clips,
            inputs,
            content.length,
            content.graph(look, settings.rate()).parts,
        ),
        are_numbers(
            content.inputs(settings.rate()).0,
            inputs,
            picture_keys(clips, clips.len() as int, settings.rate()),
        ),
    ensures
        shows_row(
            content.command(look, range, preset, settings, macos, out_path),
            look,
            label,
            over,
            tag,
            clips,
            content.length,
        ),
{
    let command = content.command(look, range, preset, settings, macos, out_path);
    let fps = settings.rate();
    let parts = content.graph(look, fps).parts;
    assert forall|p: Seq<char>| #[trigger] parts.contains(p) implies filters(command, p) by {
        lemma_in_graph(content, look, range, preset, settings, macos, out_path, p);
    }
    assert forall|i: int| 0 <= i < clips.len() implies shows_clip(
        command,
        look,
        label,
        over,
        clips,
        i,
        #[trigger] clips[i].clip,
    ) by {
        let e = clips[i];
        let c = e.clip;
        let k = inputs[i];
        let rest = choose|rest: (Seq<char>, Seq<char>, Seq<char>, Seq<char>)|
            parts.contains(
                #[trigger] picture_of(
                    inputs[i],
                    look.fps,
                    c.source_in,
                    c.source_in + c.duration,
                    rest,
                ),
            );
        assert(filters(
            command,
            picture_of(k, look.fps, c.source_in, c.source_in + c.duration, rest),
        ));
        if crate::export_graph::still_length(c) is None {
            assert(picture_keys(clips, clips.len() as int, fps)[i] == media_key(c.file_path));
            lemma_reads(content, look, range, preset, settings, macos, out_path, k, c.file_path);
        }
    }
}

/// Every clip of the main track is shown from its piece of its file, at its time.
pub proof fn exported_main_track_is_shown(
    content: ContentView,
    look: LookView,
    range: Option<ExportRange>,
    preset: ExportPreset,
    settings: ExportSettingsView,
    macos: bool,
    out_path: Seq<char>,
)
    requires
        content_fits(content),
        content.v1.clips.len() > 0,
    ensures
        shows_row(
            content.command(look, range, preset, settings, macos, out_path),
            look,
            "v1"@,
            false,
            "[v_base]"@,
            content.v1.clips,
            content.length,
        ),
{
    let fps = settings.rate();
    let (files, v1, overlays, sounds) = content.inputs(fps);
    lemma_inputs(content, fps);
    lemma_main_row(look, seq![], content.v1, v1, content.length);
    lemma_pictures_in_graph(content, look, fps);
    lemma_row_shows_kept(
        look,
        "v1"@,
        false,
        "[v_base]"@,
        content.v1.clips,
        v1,
        content.length,
        look.main_row(seq![], content.v1, v1, content.length).0,
        content.graph(look, fps).parts,
    );
    lemma_shows_row(
        content,
        look,
        range,
        preset,
        settings,
        macos,
        out_path,
        "v1"@,
        false,
        "[v_base]"@,
        content.v1.clips,
        v1,
    );
}

/// Every clip of a track above the main one is shown from its piece of its file, at its time or behind
/// the clip before it, with nothing to be seen between the clips.
pub proof fn exported_upper_track_is_shown(
    content: ContentView,
    look: LookView,
    range: Option<ExportRange>,
    preset: ExportPreset,
    settings: ExportSettingsView,
    macos: bool,
    out_path: Seq<char>,
    k: int,
)
    requires
        content_fits(content),
        0 <= k < content.overlays.len(),
        content.overlays[k].clips.len() > 0,
    ensures
        shows_row(
            content.command(look, range, preset, settings, macos, out_path),
            look,
            "overlay_v"@ + decimal(k),
            true,
            "[v_layer_"@ + decimal(k) + "]"@,
            content.overlays[k].clips,
            content.length,
        ),
{
    let fps = settings.rate();
    let (files, v1, overlays, sounds) = content.inputs(fps);
    lemma_inputs(content, fps);
    lemma_pictures_in_graph(content, look, fps);
    let main = look.main_row(seq![], content.v1, v1, content.length);
    let n = content.overlays.len() as int;
    let lane = content.overlays[k];
    assert(lane_fits(lane, true));
    let before = look.over_rows(main, content.overlays, overlays, content.length, k);
    lemma_over_row(look, before, lane, overlays[k], content.length, k);
    lemma_over_rows_keep(look, main, content.overlays, overlays, content.length, k + 1, n);
    let row = look.over_row(before, lane, overlays[k], content.length, k);
    assert(row == look.over_rows(main, content.overlays, overlays, content.length, k + 1));
    let label = "overlay_v"@ + decimal(k);
    let tag = "[v_layer_"@ + decimal(k) + "]"@;
    lemma_row_shows_kept(
        look,
        label,
        true,
        tag,
        lane.clips,
        overlays[k],
        content.length,
        row.0,
        content.graph(look, fps).parts,
    );
    lemma_shows_row(
        content,
        look,
        range,
        preset,
        settings,
        macos,
        out_path,
        label,
        true,
        tag,
        lane.clips,
        overlays[k],
    );
}

/// Every subtitle is read from its picture and lies over the rest of the picture for its time.
pub proof fn exported_subtitle_is_shown(
    content: ContentView,
    look: LookView,
    range: Option<ExportRange>,
    preset: ExportPreset,
    settings: ExportSettingsView,
    macos: bool,
    out_path: Seq<char>,
    k: int,
)
    requires
        content_fits(content),
        0 <= k < content.subtitles.len(),
    ensures
        ({
            let command = content.command(look, range, preset, settings, macos, out_path);
            let s = content.subtitles[k];
            let layer = "[v_sub_layer_"@ + decimal(k) + "]"@;
            &&& exists|n: int|
                #[trigger] reads(command, n, s.path) && filters(
                    command,
                    "["@ + decimal(n) + ":v]format=bgra"@ + layer,
                )
            &&& exists|below: Seq<char>|
                filters(
                    command,
                    #[trigger] (below + layer) + "overlay=0:0:format=auto:enable='between(t,"@
                        + s.start + ","@ + s.end + ")'"@ + ("[v_sub_comp_"@ + decimal(k) + "]"@),
                )
        }),
{
    let fps = settings.rate();
    let command = content.command(look, range, preset, settings, macos, out_path);
    let (files, v1, overlays, sounds) = content.inputs(fps);
    lemma_inputs(content, fps);
    lemma_pictures_in_graph(content, look, fps);
    let main = look.main_row(seq![], content.v1, v1, content.length);
    let over = look.over_rows(
        main,
        content.overlays,
        overlays,
        content.length,
        content.overlays.len() as int,
    );
    let first = files.keys.len() as int;
    let a = with_subtitles(over, content.subtitles, first, k);
    let b = with_subtitles(over, content.subtitles, first, k + 1);
    lemma_subtitles_keep(
        over,
        content.subtitles,
        first,
        k + 1,
        content.subtitles.len() as int,
    );
    let n = a.0.len() as int;
    assert(b.0.contains(b.0[n]));
    assert(b.0.contains(b.0[n + 1]));
    lemma_in_graph(content, look, range, preset, settings, macos, out_path, b.0[n]);
    lemma_in_graph(content, look, range, preset, settings, macos, out_path, b.0[n + 1]);
    let m = content.subtitles.len() as int;
    lemma_subtitle_files(files.args, content.subtitles, m, fps, content.length);
    let args = subtitle_args(files.args, content.subtitles, m, fps, content.length);
    let i = args.len() as int;
    assert(command.take(i) =~= args);
    assert(command[i] == "-filter_complex"@);
    assert(files_read(args)[first + k] == content.subtitles[k].path);
    assert(reads(command, first + k, content.subtitles[k].path));
    let below = a.1;
    assert(filters(
        command,
        (below + ("[v_sub_layer_"@ + decimal(k) + "]"@))
            + "overlay=0:0:format=auto:enable='between(t,"@ + content.subtitles[k].start + ","@
            + content.subtitles[k].end + ")'"@ + ("[v_sub_comp_"@ + decimal(k) + "]"@),
    ));
}

/// Whether two clips beside each other are to dissolve into each other: both are set to, for more than
/// a thousandth of a second, both last longer than that, and on the main row the file of the first
/// goes on for longer than that.
pub open spec fn are_to_dissolve(
    left: crate::clip::ClipView,
    right: crate::clip::ClipView,
    over: bool,
) -> bool {
    let wanted = left.effect(crate::clip_effects::EffectKind::Dissolve)->Dissolve_dissolve_out.smaller(
        right.effect(crate::clip_effects::EffectKind::Dissolve)->Dissolve_dissolve_in,
    );
    &&& wanted.nan() || wanted.key() > 0x3a83_126e
    &&& left.duration > 1_000_000
    &&& right.duration > 1_000_000
    &&& over || left.media_duration - (left.source_in + left.duration) > 1_000_000
}

/// Whether a command blends two clips into each other: for the time of the dissolve, half of it before
/// and half of it behind the time at which the second comes, the file of the first goes on past the
/// end of its clip by half of the time, and that of the second begins before the start of its clip by
/// half of the time; the first gives way to the second in proportion to the time, and the blend lies
/// over the row.
pub open spec fn blends(
    command: Seq<Seq<char>>,
    look: LookView,
    base: Seq<char>,
    i: int,
    left: crate::clip::ClipView,
    right: crate::clip::ClipView,
    length: int,
    center: int,
) -> bool {
    let half = length / 2;
    let time = seconds_in_six_digits(length as nat);
    let from = back_by(center, half);
    let start = seconds_in_six_digits(from as nat);
    let end = seconds_in_six_digits((from + length) as nat);
    let a = left.source_in + left.duration - half;
    let b = back_by(right.source_in, half);
    &&& exists|k: int, rest: (Seq<char>, Seq<char>, Seq<char>, Seq<char>)|
        filters(command, #[trigger] picture_of(k, look.fps, a, a + length, rest)) && (
        crate::export_graph::still_length(left) is None ==> reads(command, k, left.file_path))
    &&& exists|k: int, rest: (Seq<char>, Seq<char>, Seq<char>, Seq<char>)|
        filters(command, #[trigger] picture_of(k, look.fps, b, b + length, rest)) && (
        crate::export_graph::still_length(right) is None ==> reads(command, k, right.file_path))
    &&& filters(
        command,
        picture_name_in(base + "_dissolve_"@ + "l"@, "clip"@, i) + picture_name_in(
            base + "_dissolve_"@ + "r"@,
            "clip"@,
            i,
        ) + "blend=all_expr='A*(1-clip(T/"@ + time + ",0,1))+B*clip(T/"@ + time
            + ",0,1)':shortest=1,format=bgra"@ + step_name(base, "blend"@, i),
    )
    &&& filters(
        command,
        step_name(base, "blend"@, i) + "setpts=PTS-STARTPTS+"@ + start + "/TB"@ + step_name(base, "timed"@, i),
    )
    &&& exists|below: Seq<char>|
        filters(command, #[trigger] laid_over(below, base, i, start, end))
}

proof fn lemma_blends(
    content: ContentView,
    look: LookView,
    range: Option<ExportRange>,
    preset: ExportPreset,
    settings: ExportSettingsView,
    macos: bool,
    out_path: Seq<char>,
    parts: Seq<Seq<char>>,
    tag: Seq<char>,
    base: Seq<char>,
    over: bool,
    lane: ExportLaneView,
    inputs: Seq<int>,
    centers: Seq<int>,
    j: int,
)
    requires
        lane_fits(lane, over),
        0 <= j < lane.clips.len() - 1,
        centers.len() == lane.clips.len(),
        forall|m: int|
            0 <= m < lane.clips.len() ==> #[trigger] centers[m] == place_in_row(lane.clips, over, m),
        are_to_dissolve(lane.clips[j].clip, lane.clips[j + 1].clip, over),
        keeps(
            look.with_dissolves(
                parts,
                tag,
                base,
                over,
                lane,
                inputs,
                centers,
                lane.cut_count(),
            ).0,
            content.graph(look, settings.rate()).parts,
        ),
        are_numbers(
            content.inputs(settings.rate()).0,
            inputs,
            picture_keys(lane.clips, lane.clips.len() as int, settings.rate()),
        ),
    ensures
        blends(
            content.command(look, range, preset, settings, macos, out_path),
            look,
            base,
            j,
            lane.clips[j].clip,
            lane.clips[j + 1].clip,
            blend_time(lane.clips[j].clip, lane.clips[j + 1].clip, lane.cuts[j].wanted, over),
            place_in_row(lane.clips, over, j + 1),
        ),
{
    let command = content.command(look, range, preset, settings, macos, out_path);
    let fps = settings.rate();
    let left = lane.clips[j].clip;
    let right = lane.clips[j + 1].clip;
    assert(time_fits(lane.clips[j].clip.start));
    assert(time_fits(lane.clips[j + 1].clip.start));
    assert(cut_fits(
        lane.clips[j].clip,
        lane.clips[j + 1].clip,
        lane.cuts[j].wanted,
        over,
        place_in_row(lane.clips, over, j + 1),
    ));
    assert(centers[j + 1] == place_in_row(lane.clips, over, j + 1));
    assert forall|m: int| 0 <= m < lane.clips.len() - 1 implies cut_fits(
        (#[trigger] lane.clips[m]).clip,
        lane.clips[m + 1].clip,
        lane.cuts[m].wanted,
        over,
        centers[m + 1],
    ) by {
        assert(centers[m + 1] == place_in_row(lane.clips, over, m + 1));
    }
    lemma_dissolve_of(left, right, lane.cuts[j], over, centers[j + 1]);
    let d = crate::export_graph::dissolve_of(left, right, lane.cuts[j], over, centers[j + 1]);
    let (front, below) = look.with_dissolves(parts, tag, base, over, lane, inputs, centers, j);
    assert(crate::export_graph::dissolves(left, right, over));
    lemma_dissolve_keeps(look, front, below, base, over, d, (inputs[j], inputs[j + 1]), j);
    let out = look.with_dissolve(front, below, base, over, d, (inputs[j], inputs[j + 1]), j);
    assert(look.with_dissolves(parts, tag, base, over, lane, inputs, centers, j + 1).0 == out);
    lemma_dissolves_keep(
        look,
        parts,
        tag,
        base,
        over,
        lane,
        inputs,
        centers,
        j + 1,
        lane.cut_count(),
    );
    assert forall|p: Seq<char>| #[trigger] out.contains(p) implies filters(command, p) by {
        assert(content.graph(look, fps).parts.contains(p));
        lemma_in_graph(content, look, range, preset, settings, macos, out_path, p);
    }
    let a = d.left.clip.source_in;
    let b = d.right.clip.source_in;
    let length = d.length;
    let r = choose|rest: (Seq<char>, Seq<char>, Seq<char>, Seq<char>)|
        out.contains(#[trigger] picture_of(inputs[j], look.fps, a, a + length, rest));
    assert(filters(command, picture_of(inputs[j], look.fps, a, a + length, r)));
    let r = choose|rest: (Seq<char>, Seq<char>, Seq<char>, Seq<char>)|
        out.contains(#[trigger] picture_of(inputs[j + 1], look.fps, b, b + length, rest));
    assert(filters(command, picture_of(inputs[j + 1], look.fps, b, b + length, r)));
    let keys = picture_keys(lane.clips, lane.clips.len() as int, fps);
    if crate::export_graph::still_length(left) is None {
        assert(keys[j] == media_key(left.file_path));
        lemma_reads(
            content,
            look,
            range,
            preset,
            settings,
            macos,
            out_path,
            inputs[j],
            left.file_path,
        );
    }
    if crate::export_graph::still_length(right) is None {
        assert(keys[j + 1] == media_key(right.file_path));
        lemma_reads(
            content,
            look,
            range,
            preset,
            settings,
            macos,
            out_path,
            inputs[j + 1],
            right.file_path,
        );
    }
    let start = seconds_in_six_digits(d.start as nat);
    let end = seconds_in_six_digits((d.start + length) as nat);
    assert(filters(command, laid_over(below, base, j, start, end)));
}

/// Two clips of the main track that are to dissolve do so around the start of the second.
pub proof fn exported_dissolve_blends(
    content: ContentView,
    look: LookView,
    range: Option<ExportRange>,
    preset: ExportPreset,
    settings: ExportSettingsView,
    macos: bool,
    out_path: Seq<char>,
    j: int,
)
    requires
        content_fits(content),
        0 <= j < content.v1.clips.len() - 1,
        are_to_dissolve(content.v1.clips[j].clip, content.v1.clips[j + 1].clip, false),
    ensures
        blends(
            content.command(look, range, preset, settings, macos, out_path),
            look,
            "v1"@,
            j,
            content.v1.clips[j].clip,
            content.v1.clips[j + 1].clip,
            blend_time(
                content.v1.clips[j].clip,
                content.v1.clips[j + 1].clip,
                content.v1.cuts[j].wanted,
                false,
            ),
            content.v1.clips[j + 1].clip.start,
        ),
{
    reveal(LookView::main_row);
    let fps = settings.rate();
    let (files, v1, overlays, sounds) = content.inputs(fps);
    lemma_inputs(content, fps);
    lemma_pictures_in_graph(content, look, fps);
    let kind = LaneKind { label: "v1"@, over: false };
    let lane = content.v1;
    let run = look.lane_run(seq![], kind, lane.clips, v1, lane.clips.len() as int);
    let joined = look.lane_joined(look.with_end(run, kind, content.length), "[v_base]"@);
    let centers = crate::export_graph::own_starts(lane.clips);
    lemma_blends(
        content,
        look,
        range,
        preset,
        settings,
        macos,
        out_path,
        joined,
        "[v_base]"@,
        "v1"@,
        false,
        lane,
        v1,
        centers,
        j,
    );
}

/// Two clips of a track above the main one that are to dissolve do so around the time at which the
/// second comes in its row.
pub proof fn exported_upper_dissolve_blends(
    content: ContentView,
    look: LookView,
    range: Option<ExportRange>,
    preset: ExportPreset,
    settings: ExportSettingsView,
    macos: bool,
    out_path: Seq<char>,
    k: int,
    j: int,
)
    requires
        content_fits(content),
        0 <= k < content.overlays.len(),
        0 <= j < content.overlays[k].clips.len() - 1,
        are_to_dissolve(
            content.overlays[k].clips[j].clip,
            content.overlays[k].clips[j + 1].clip,
            true,
        ),
    ensures
        blends(
            content.command(look, range, preset, settings, macos, out_path),
            look,
            "ov"@ + decimal(k),
            j,
            content.overlays[k].clips[j].clip,
            content.overlays[k].clips[j + 1].clip,
            blend_time(
                content.overlays[k].clips[j].clip,
                content.overlays[k].clips[j + 1].clip,
                content.overlays[k].cuts[j].wanted,
                true,
            ),
            place_in_row(content.overlays[k].clips, true, j + 1),
        ),
{
    reveal(LookView::over_row);
    let fps = settings.rate();
    let (files, v1, overlays, sounds) = content.inputs(fps);
    lemma_inputs(content, fps);
    lemma_pictures_in_graph(content, look, fps);
    let main = look.main_row(seq![], content.v1, v1, content.length);
    let n = content.overlays.len() as int;
    let lane = content.overlays[k];
    assert(lane_fits(lane, true));
    let before = look.over_rows(main, content.overlays, overlays, content.length, k);
    lemma_over_rows_keep(look, main, content.overlays, overlays, content.length, k + 1, n);
    let row = look.over_row(before, lane, overlays[k], content.length, k);
    assert(row == look.over_rows(main, content.overlays, overlays, content.length, k + 1));
    let kind = LaneKind { label: crate::export_graph::lane_label(decimal(k)), over: true };
    let tag = crate::export_graph::layer_tag(decimal(k));
    let base = crate::export_graph::base_layer(decimal(k));
    let run = look.lane_run(before.0, kind, lane.clips, overlays[k], lane.clips.len() as int);
    lemma_centers(look, before.0, kind, lane.clips, overlays[k], lane.clips.len() as int);
    let joined = look.lane_joined(look.with_end(run, kind, content.length), tag);
    let (parts, top) = look.with_dissolves(
        joined,
        tag,
        base,
        true,
        lane,
        overlays[k],
        run.starts,
        lane.cut_count(),
    );
    let next = crate::export_graph::composed_tag(decimal(k));
    lemma_push(parts, crate::export_graph::overlay_filter(before.1, top, next));
    lemma_blends(
        content,
        look,
        range,
        preset,
        settings,
        macos,
        out_path,
        joined,
        tag,
        base,
        true,
        lane,
        overlays[k],
        run.starts,
        j,
    );
}

} // verus!
