//! What is counted in frames, in samples and in points, how long a timeline is, and where tools are
//! looked for.
use crate::audio_recording::RecordingFormat;
use crate::clip::ClipView;
use crate::export_gpu::{
    frame_time, mixed, mixed_alpha, overlays_shown, part_of, shown_within, tracks_shown, ClipPartView,
    TrackClipView,
};
use crate::export_settings::ExportRange;
use crate::graph_laws::time_fits;
use crate::media_tools::{
    filled_lines, first_answer, last_others, line_end, lines_from, MediaDependencyStatusView,
    ToolPlacesView,
};
use crate::text::{is_space, trimmed, trimmed_end, trimmed_start};
use crate::tracks::{TimelineView, VideoTrackView};
use vstd::prelude::*;

verus! {

// ---------------------------------------------------------------------------
// Frames and samples
// ---------------------------------------------------------------------------

proof fn lemma_nearest(n: int, per: int)
    requires
        0 <= n,
        0 < per,
    ensures
        ({
            let d = (2 * n * 1_000_000_000 + per) / (2 * per);
            -per <= 2 * (d * per - n * 1_000_000_000) <= per
        }),
{
    let x = 2 * n * 1_000_000_000 + per;
    let d = x / (2 * per);
    assert((2 * per) * d <= x < (2 * per) * d + 2 * per) by (nonlinear_arith)
        requires
            per > 0,
            d == x / (2 * per),
    ;
    assert((2 * per) * d == 2 * (d * per)) by (nonlinear_arith);
}

/// A frame is shown at the nanosecond nearest to its number divided by the rate.
pub proof fn frame_is_shown_at_its_time(frame: int, fps: int)
    requires
        0 <= frame,
        0 < fps,
    ensures
        -fps <= 2 * (frame_time(frame, fps) * fps - frame * 1_000_000_000) <= fps,
{
    lemma_nearest(frame, fps);
}

/// A recording lasts as long as its whole frames of one sample for each channel, to the nearest
/// nanosecond.
pub proof fn recorded_samples_last_their_time(f: RecordingFormat, frames: int, left: int)
    requires
        f.is_valid(),
        0 <= frames,
        0 <= left < f.channels,
    ensures
        -f.sample_rate <= 2 * (f.length_of(frames * f.channels + left) * f.sample_rate - frames
            * 1_000_000_000) <= f.sample_rate,
{
    let c = f.channels as int;
    assert((frames * c + left) / c == frames) by (nonlinear_arith)
        requires
            0 <= left < c,
    ;
    lemma_nearest(frames, f.sample_rate as int);
}

/// Of a clip that is exported alone, the part shown is just the range: it begins at the start of the
/// range and lasts as long. Without a range all of the clip is shown. A range that is not within the
/// clip is refused, and so is a part of at most a thousandth of a second.
pub proof fn exported_part_is_the_range(c: ClipView, r: ExportRange)
    requires
        time_fits(c.start),
        time_fits(c.duration),
        time_fits(c.start + c.duration),
        r.start@ <= r.end@,
    ensures
        match part_of(c, Some(r)) {
            ClipPartView::Outside => r.start@ < c.start || c.start + c.duration < r.end@,
            ClipPartView::TooShort => c.start <= r.start@ && r.end@ <= c.start + c.duration
                && r.end@ - r.start@ <= 1_000_000,
            ClipPartView::Part { local_start, duration } => c.start <= r.start@ && r.end@ <= c.start
                + c.duration && c.start + local_start == r.start@ && duration == r.end@ - r.start@
                && duration > 1_000_000,
        },
        match part_of(c, None) {
            ClipPartView::Outside => false,
            ClipPartView::TooShort => c.duration <= 1_000_000,
            ClipPartView::Part { local_start, duration } => local_start == 0 && duration
                == c.duration && duration > 1_000_000,
        },
{
    reveal(part_of);
}

/// A clip that is exported with others is drawn just while both it and the export are shown, and at
/// every moment the part of its file is read that the timeline shows there. Where they have at most
/// a thousandth of a second in common it is not drawn.
pub proof fn drawn_clip_shows_its_part(c: ClipView, start: int, end: int, track: Option<int>)
    requires
        time_fits(c.start),
        time_fits(c.duration),
        time_fits(c.source_in),
        time_fits(c.start + c.duration),
        time_fits(c.source_in + c.duration),
        0 <= start <= end,
    ensures
        match shown_within(c, start, end, track) {
            Some(s) => {
                &&& s.track == track
                &&& s.active_end - s.active_start > 1_000_000
                &&& forall|x: int|
                    #[trigger] time_fits(x) ==> ((s.active_start <= x < s.active_end) <==> (start
                        <= x < end && c.start <= x < c.start + c.duration))
                &&& s.source_start - c.source_in == s.active_start - c.start
            },
            None => forall|x: int, y: int|
                #[trigger] time_fits(x) && #[trigger] time_fits(y) && start <= x <= y <= end
                    && c.start <= x <= y <= c.start + c.duration ==> y - x <= 1_000_000,
        },
{
}

proof fn lemma_overlays(
    tracks: Seq<VideoTrackView>,
    start: int,
    end: int,
    n: int,
    main: TrackClipView,
)
    requires
        0 <= n <= tracks.len(),
    ensures
        ({
            let list = overlays_shown(tracks, start, end, n, main);
            &&& list.len() > 0
            &&& list[0] == main
            &&& forall|i: int|
                1 <= i < list.len() ==> ((#[trigger] list[i]).track matches Some(t) && 0 <= t < n
                    && tracks[t].clips.len() > 0 && shown_within(
                    tracks[t].clips[0],
                    start,
                    end,
                    Some(t),
                ) == Some(list[i]))
            &&& forall|i: int, j: int|
                1 <= i < j < list.len() ==> (#[trigger] list[i]).track->0 < (
                #[trigger] list[j]).track->0
            &&& forall|t: int|
                0 <= t < n && (#[trigger] tracks[t]).clips.len() > 0 && shown_within(
                    tracks[t].clips[0],
                    start,
                    end,
                    Some(t),
                ) is Some ==> exists|i: int|
                    1 <= i < list.len() && (#[trigger] list[i]).track == Some(t)
        }),
    decreases n,
{
    if n > 0 {
        lemma_overlays(tracks, start, end, n - 1, main);
        let before = overlays_shown(tracks, start, end, n - 1, main);
        let list = overlays_shown(tracks, start, end, n, main);
        let m = before.len() as int;
        assert forall|i: int| 0 <= i < m implies #[trigger] list[i] == before[i] by {}
        assert forall|t: int|
            0 <= t < n && (#[trigger] tracks[t]).clips.len() > 0 && shown_within(
                tracks[t].clips[0],
                start,
                end,
                Some(t),
            ) is Some implies exists|i: int|
            1 <= i < list.len() && (#[trigger] list[i]).track == Some(t) by {
            if t < n - 1 {
                let i = choose|i: int|
                    1 <= i < before.len() && (#[trigger] before[i]).track == Some(t);
                assert(list[i].track == Some(t));
            } else {
                assert(list[m].track == Some(t));
            }
        }
        assert forall|i: int, j: int| 1 <= i < j < list.len() implies (#[trigger] list[i]).track->0
            < (#[trigger] list[j]).track->0 by {
            if j < m {
                assert(before[i].track->0 < before[j].track->0);
            } else {
                assert(before[i].track matches Some(t) && t < n - 1);
            }
        }
    }
}

/// Of several tracks the main one is drawn first and each other one over those below it; every track
/// whose first clip is shown within the export is among them, once, and no other.
pub proof fn tracks_are_drawn_from_below(
    v1: ClipView,
    tracks: Seq<VideoTrackView>,
    start: int,
    end: int,
)
    ensures
        tracks_shown(v1, tracks, start, end) matches Ok(list) ==> {
            &&& list.len() > 0
            &&& shown_within(v1, start, end, None) == Some(list[0])
            &&& forall|i: int|
                1 <= i < list.len() ==> ((#[trigger] list[i]).track matches Some(t) && 0 <= t
                    < tracks.len() && tracks[t].clips.len() > 0 && shown_within(
                    tracks[t].clips[0],
                    start,
                    end,
                    Some(t),
                ) == Some(list[i]))
            &&& forall|i: int, j: int|
                1 <= i < j < list.len() ==> (#[trigger] list[i]).track->0 < (
                #[trigger] list[j]).track->0
            &&& forall|t: int|
                0 <= t < tracks.len() && (#[trigger] tracks[t]).clips.len() > 0 && shown_within(
                    tracks[t].clips[0],
                    start,
                    end,
                    Some(t),
                ) is Some ==> exists|i: int|
                    1 <= i < list.len() && (#[trigger] list[i]).track == Some(t)
        },
        end > start + 1_000_000 && shown_within(v1, start, end, None) is Some ==> tracks_shown(
            v1,
            tracks,
            start,
            end,
        ) is Ok,
{
    if let Some(main) = shown_within(v1, start, end, None) {
        lemma_overlays(tracks, start, end, tracks.len() as int, main);
    }
}

// ---------------------------------------------------------------------------
// How long a timeline is
// ---------------------------------------------------------------------------

proof fn lemma_subtitles_end(t: TimelineView, i: int, n: int)
    requires
        0 <= n <= t.subtitle_tracks.len(),
    ensures
        0 <= i < n && t.subtitle_tracks[i].clips.len() > 0 ==> crate::time::least(
            t.subtitle_tracks[i].clips.last().end(),
            crate::time::MAX_NANOS as int,
        ) <= t.subtitles_end(n),
        0 <= t.subtitles_end(n),
    decreases n,
{
    if n > 0 {
        lemma_subtitles_end(t, i, n - 1);
    }
}

proof fn lemma_lanes_end(t: TimelineView, i: int, n: int)
    ensures
        0 <= i < n && t.lane(i).len() > 0 ==> crate::time::least(
            t.lane(i).last().end(),
            crate::time::MAX_NANOS as int,
        ) <= t.lanes_end(n),
        0 <= t.lanes_end(n),
    decreases n,
{
    if n > 0 {
        lemma_lanes_end(t, i, n - 1);
    }
}

/// A timeline lasts until the last clip of every row, the last subtitle of every row and the last
/// marked stretch have ended.
pub proof fn timeline_lasts_until_all_have_ended(t: TimelineView, i: int)
    ensures
        0 <= i < t.lane_count() && t.lane(i).len() > 0 && time_fits(
            t.lane(i).last().start + t.lane(i).last().duration,
        ) ==> t.length() >= t.lane(i).last().start + t.lane(i).last().duration,
        0 <= i < t.subtitle_tracks.len() && t.subtitle_tracks[i].clips.len() > 0 && time_fits(
            t.subtitle_tracks[i].clips.last().start + t.subtitle_tracks[i].clips.last().duration,
        ) ==> t.length() >= t.subtitle_tracks[i].clips.last().start
            + t.subtitle_tracks[i].clips.last().duration,
        t.semantic_clips.len() > 0 && time_fits(
            t.semantic_clips.last().start + t.semantic_clips.last().duration,
        ) ==> t.length() >= t.semantic_clips.last().start + t.semantic_clips.last().duration,
{
    lemma_lanes_end(t, i, t.lane_count() as int);
    lemma_subtitles_end(t, i, t.subtitle_tracks.len() as int);
}

proof fn lemma_ends_somewhere(t: TimelineView, n: int, length: int)
    requires
        length > 0,
    ensures
        t.lanes_end(n) == length && n >= 0 ==> exists|i: int|
            0 <= i < n && (#[trigger] t.lane(i)).len() > 0 && t.lane(i).last().end() >= length,
        0 <= n <= t.subtitle_tracks.len() && t.subtitles_end(n) == length ==> exists|i: int|
            0 <= i < n && (#[trigger] t.subtitle_tracks[i]).clips.len() > 0
                && t.subtitle_tracks[i].clips.last().end() >= length,
    decreases n,
{
    if n > 0 {
        lemma_ends_somewhere(t, n - 1, length);
        if t.lanes_end(n) == length && t.lanes_end(n - 1) != length {
            assert(t.lane(n - 1).len() > 0);
        }
        if n <= t.subtitle_tracks.len() && t.subtitles_end(n) == length && t.subtitles_end(n - 1)
            != length {
            assert(t.subtitle_tracks[n - 1].clips.len() > 0);
        }
    }
}

/// A timeline lasts no longer than that: something is there up to its end.
pub proof fn timeline_ends_with_something(t: TimelineView)
    ensures
        t.length() > 0 ==> {
            ||| exists|i: int|
                0 <= i < t.lane_count() && (#[trigger] t.lane(i)).len() > 0
                    && t.lane(i).last().start + t.lane(i).last().duration >= t.length()
            ||| exists|i: int|
                0 <= i < t.subtitle_tracks.len() && (#[trigger] t.subtitle_tracks[i]).clips.len()
                    > 0 && t.subtitle_tracks[i].clips.last().start
                    + t.subtitle_tracks[i].clips.last().duration >= t.length()
            ||| t.semantic_clips.len() > 0 && t.semantic_clips.last().start
                + t.semantic_clips.last().duration >= t.length()
        },
{
    let length = t.length();
    if length > 0 {
        lemma_ends_somewhere(t, t.lane_count() as int, length);
        lemma_ends_somewhere(t, t.subtitle_tracks.len() as int, length);
        if t.lanes_end(t.lane_count() as int) == length {
            let i = choose|i: int|
                0 <= i < t.lane_count() && (#[trigger] t.lane(i)).len() > 0
                    && t.lane(i).last().end() >= length;
            assert(t.lane(i).last().start + t.lane(i).last().duration >= length);
        } else if t.subtitles_end(t.subtitle_tracks.len() as int) == length {
            let i = choose|i: int|
                0 <= i < t.subtitle_tracks.len() && (#[trigger] t.subtitle_tracks[i]).clips.len()
                    > 0 && t.subtitle_tracks[i].clips.last().end() >= length;
            assert(t.subtitle_tracks[i].clips.last().start
                + t.subtitle_tracks[i].clips.last().duration >= length);
        }
    }
}

// ---------------------------------------------------------------------------
// Points
// ---------------------------------------------------------------------------

/// A channel of a point under another is the mean of both, weighed by how far the upper one is there,
/// to the nearest whole number; and what the upper one leaves of the lower one is added to how far
/// the point is there.
pub proof fn points_are_mixed_by_their_weight(above: int, below: int, a: int)
    requires
        0 <= above <= 255,
        0 <= below <= 255,
        0 <= a <= 255,
    ensures
        -127 <= 255 * mixed(above, below, a) - (above * a + below * (255 - a)) <= 127,
        -127 <= 255 * (mixed_alpha(a, below) - a) - below * (255 - a) <= 127,
{
    assert(0 <= below * (255 - a) <= 255 * (255 - a)) by (nonlinear_arith)
        requires
            0 <= below <= 255,
            a <= 255,
    ;
}

// ---------------------------------------------------------------------------
// Tools
// ---------------------------------------------------------------------------

proof fn lemma_start(text: Seq<char>) -> (i: int)
    ensures
        0 <= i <= text.len(),
        trimmed_start(text) == text.skip(i),
        forall|k: int| 0 <= k < i ==> is_space(#[trigger] text[k]),
        i < text.len() ==> !is_space(text[i]),
    decreases text.len(),
{
    if text.len() > 0 && is_space(text[0]) {
        let rest = text.drop_first();
        let j = lemma_start(rest);
        assert(rest.skip(j) =~= text.skip(j + 1));
        assert forall|k: int| 0 <= k < j + 1 implies is_space(#[trigger] text[k]) by {
            if k > 0 {
                assert(rest[k - 1] == text[k]);
            }
        }
        if j < rest.len() {
            assert(rest[j] == text[j + 1]);
        }
        j + 1
    } else {
        assert(text.skip(0) =~= text);
        0
    }
}

proof fn lemma_end(text: Seq<char>) -> (i: int)
    ensures
        0 <= i <= text.len(),
        trimmed_end(text) == text.take(i),
        forall|k: int| i <= k < text.len() ==> is_space(#[trigger] text[k]),
        i > 0 ==> !is_space(text[i - 1]),
    decreases text.len(),
{
    if text.len() > 0 && is_space(text.last()) {
        let rest = text.drop_last();
        let j = lemma_end(rest);
        assert(rest.take(j) =~= text.take(j));
        assert forall|k: int| j <= k < text.len() implies is_space(#[trigger] text[k]) by {
            if k < rest.len() {
                assert(rest[k] == text[k]);
            }
        }
        j
    } else {
        assert(text.take(text.len() as int) =~= text);
        text.len() as int
    }
}

/// Trimming a text takes white space off its two ends, all of it and nothing else.
pub proof fn trimming_takes_off_white_space(text: Seq<char>)
    ensures
        exists|i: int, j: int|
            {
                &&& 0 <= i <= j <= text.len()
                &&& trimmed(text) == #[trigger] text.subrange(i, j)
                &&& forall|k: int|
                    0 <= k < i || j <= k < text.len() ==> is_space(#[trigger] text[k])
                &&& i < j ==> !is_space(text[i]) && !is_space(text[j - 1])
            },
        trimmed(trimmed(text)) == trimmed(text),
{
    let i = lemma_start(text);
    let rest = text.skip(i);
    let j = lemma_end(rest);
    assert(rest.take(j) =~= text.subrange(i, i + j));
    assert forall|k: int| 0 <= k < i || i + j <= k < text.len() implies is_space(
        #[trigger] text[k],
    ) by {
        if k >= i {
            assert(rest[k - i] == text[k]);
        }
    }
    if j > 0 {
        assert(rest[j - 1] == text[i + j - 1]);
        assert(rest[0] == text[i]);
        if i == text.len() {
            assert(rest.len() == 0);
        }
    }
    let t = trimmed(text);
    assert(t == text.subrange(i, i + j));
    let a = lemma_start(t);
    if j > 0 {
        assert(t[0] == text[i]);
        assert(a == 0);
    }
    assert(t.skip(0) =~= t);
    let b = lemma_end(t);
    if j > 0 {
        assert(t[j - 1] == text[i + j - 1]);
        assert(b == t.len());
    }
    assert(t.take(t.len() as int) =~= t);
    if j == 0 {
        assert(t =~= seq![]);
        assert(t.skip(a) =~= t);
        assert(t.take(b) =~= t);
    }
}

/// Where all places of a tool are known and differ, they are tried in this order: the one that is
/// wanted, without white space around it, the one that a setting names, that of the workspace, that
/// of the home that a setting names, that of the usual home, which is left out where only installed
/// tools are used, and that of the program.
pub proof fn tools_are_tried_in_turn(
    wanted: Seq<char>,
    env: Seq<char>,
    workspace: Seq<char>,
    configured: Seq<char>,
    usual: Seq<char>,
    bundled: Seq<char>,
)
    requires
        trimmed(wanted).len() > 0,
        trimmed(env).len() > 0,
        trimmed(workspace).len() > 0,
        trimmed(configured).len() > 0,
        trimmed(usual).len() > 0,
        trimmed(bundled).len() > 0,
        seq![trimmed(wanted), env, workspace, configured, usual, bundled].no_duplicates(),
    ensures
        ({
            let places = ToolPlacesView {
                preferred: Some(wanted),
                from_env: Some(env),
                workspace: Some(workspace),
                configured: Some(configured),
                usual: Some(usual),
                bundled: Some(bundled),
            };
            &&& places.in_turn(false) == seq![
                trimmed(wanted),
                env,
                workspace,
                configured,
                usual,
                bundled,
            ]
            &&& places.in_turn(true) == seq![trimmed(wanted), env, workspace, configured, bundled]
        }),
{
    trimming_takes_off_white_space(wanted);
    let first = trimmed(wanted);
    let all = seq![first, env, workspace, configured, usual, bundled];
    assert(all[0] == first && all[1] == env && all[2] == workspace);
    assert(all[3] == configured && all[4] == usual && all[5] == bundled);
    let none: Seq<Seq<char>> = seq![];
    assert(none.push(first) =~= seq![first]);
    assert(seq![first].push(env) =~= seq![first, env]);
    assert(seq![first, env].push(workspace) =~= seq![first, env, workspace]);
    let four = seq![first, env, workspace, configured];
    assert(seq![first, env, workspace].push(configured) =~= four);
    assert(four.push(usual) =~= seq![first, env, workspace, configured, usual]);
    assert(four.push(bundled) =~= seq![first, env, workspace, configured, bundled]);
    assert(seq![first, env, workspace, configured, usual].push(bundled) =~= all);
}

proof fn lemma_first_answer(versions: Seq<Option<Seq<char>>>, from: int)
    requires
        0 <= from <= versions.len(),
    ensures
        from <= first_answer(versions, from) <= versions.len(),
        first_answer(versions, from) < versions.len() ==> versions[first_answer(versions, from)] is Some,
        forall|i: int|
            from <= i < first_answer(versions, from) ==> #[trigger] versions[i] is None,
    decreases versions.len() - from,
{
    if from < versions.len() && versions[from] is None {
        lemma_first_answer(versions, from + 1);
    }
}

/// Of the places of a tool the first that answered is used, with what it answered. Where none did,
/// the tool is not there, and the first place is named.
pub proof fn first_tool_that_answers_is_used(
    s: MediaDependencyStatusView,
    candidates: Seq<Seq<char>>,
    versions: Seq<Option<Seq<char>>>,
    at: int,
)
    requires
        versions.len() == candidates.len(),
        0 <= at < versions.len(),
        forall|i: int| 0 <= i < at ==> #[trigger] versions[i] is None,
    ensures
        versions[at] is Some ==> {
            let after = s.with_ffmpeg(candidates, versions);
            &&& after.ffmpeg_available
            &&& after.ffmpeg_command == candidates[at]
            &&& after.ffmpeg_version == versions[at]
            &&& after.ffprobe_available == s.ffprobe_available
            &&& after.ffprobe_command == s.ffprobe_command
        },
        versions[at] is Some ==> {
            let after = s.with_ffprobe(candidates, versions);
            &&& after.ffprobe_available
            &&& after.ffprobe_command == candidates[at]
            &&& after.ffprobe_version == versions[at]
            &&& after.ffmpeg_available == s.ffmpeg_available
            &&& after.ffmpeg_command == s.ffmpeg_command
        },
        versions[at] is None && at == versions.len() - 1 ==> {
            let after = s.with_ffmpeg(candidates, versions);
            &&& after.ffmpeg_available == s.ffmpeg_available
            &&& after.ffmpeg_command == candidates[0]
        },
        versions[at] is None && at == versions.len() - 1 ==> {
            let after = s.with_ffprobe(candidates, versions);
            &&& after.ffprobe_available == s.ffprobe_available
            &&& after.ffprobe_command == candidates[0]
        },
{
    lemma_first_answer(versions, 0);
    let first = first_answer(versions, 0);
    if first < at {
        assert(versions[first] is None);
    }
}

// ---------------------------------------------------------------------------
// Lines of texts
// ---------------------------------------------------------------------------

proof fn lemma_line_end_is(text: Seq<char>, n: int)
    requires
        0 <= n <= text.len(),
        forall|i: int| 0 <= i < n ==> #[trigger] text[i] != '\n',
        n < text.len() ==> text[n] == '\n',
    ensures
        line_end(text) == n,
    decreases n,
{
    if n > 0 {
        let rest = text.drop_first();
        assert forall|i: int| 0 <= i < n - 1 implies #[trigger] rest[i] != '\n' by {
            assert(rest[i] == text[i + 1]);
        }
        assert(text[0] != '\n');
        lemma_line_end_is(rest, n - 1);
    }
}

proof fn lemma_line_end_bounds(text: Seq<char>)
    ensures
        0 <= line_end(text) <= text.len(),
    decreases text.len(),
{
    if text.len() > 0 {
        lemma_line_end_bounds(text.drop_first());
    }
}

proof fn lemma_lines_from(text: Seq<char>, from: int)
    requires
        0 <= from <= text.len(),
    ensures
        lines_from(text, from) == filled_lines(text.skip(from)),
    decreases text.len() - from,
{
    let rest = text.skip(from);
    let n = line_end(rest);
    lemma_line_end_bounds(rest);
    assert(rest.skip(0) =~= rest);
    if from + n < text.len() {
        lemma_lines_from(text, from + n + 1);
        lemma_lines_from(rest, n + 1);
        assert(rest.skip(n + 1) =~= text.skip(from + n + 1));
    }
}

/// A text has its first line, up to where the next one begins, without white space around it and
/// unless it is empty, and then the lines of the rest.
pub proof fn text_is_split_at_its_line_ends(line: Seq<char>, rest: Seq<char>)
    requires
        forall|i: int| 0 <= i < line.len() ==> #[trigger] line[i] != '\n',
    ensures
        trimmed(line).len() == 0 ==> filled_lines(line) == Seq::<Seq<char>>::empty(),
        trimmed(line).len() > 0 ==> filled_lines(line) == seq![trimmed(line)],
        trimmed(line).len() == 0 ==> filled_lines(line + seq!['\n'] + rest) == filled_lines(rest),
        trimmed(line).len() > 0 ==> filled_lines(line + seq!['\n'] + rest) == seq![trimmed(line)]
            + filled_lines(rest),
{
    let n = line.len() as int;
    lemma_line_end_is(line, n);
    assert(line.skip(0) =~= line);
    let text = line + seq!['\n'] + rest;
    assert forall|i: int| 0 <= i < n implies #[trigger] text[i] != '\n' by {
        assert(text[i] == line[i]);
    }
    assert(text[n] == '\n');
    lemma_line_end_is(text, n);
    assert(text.skip(0) =~= text);
    assert(text.take(n) =~= line);
    lemma_lines_from(text, n + 1);
    assert(text.skip(n + 1) =~= rest);
    assert(seq![] + filled_lines(rest) =~= filled_lines(rest));
}

/// Of lines none of which is the one to leave out, the last ones are told, in their order.
pub proof fn last_lines_are_told(lines: Seq<Seq<char>>, not: Seq<char>, n: int)
    requires
        0 <= n,
        forall|i: int| 0 <= i < lines.len() ==> #[trigger] lines[i] != not,
    ensures
        lines.len() <= n ==> last_others(lines, not, n) == lines,
        lines.len() > n ==> last_others(lines, not, n) == lines.skip(lines.len() - n),
    decreases lines.len(),
{
    if lines.len() > 0 && n > 0 {
        let front = lines.drop_last();
        assert forall|i: int| 0 <= i < front.len() implies #[trigger] front[i] != not by {
            assert(front[i] == lines[i]);
        }
        last_lines_are_told(front, not, n - 1);
        assert(lines[lines.len() - 1] != not);
        assert(front.push(lines.last()) =~= lines);
        if lines.len() > n {
            assert(front.skip(front.len() - (n - 1)).push(lines.last()) =~= lines.skip(
                lines.len() - n,
            ));
        }
    } else {
        assert(last_others(lines, not, n) =~= seq![]);
        if lines.len() > n {
            assert(lines.skip(lines.len() - n) =~= seq![]);
        } else {
            assert(lines =~= seq![]);
        }
    }
}

} // verus!
