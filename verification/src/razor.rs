//! Cutting clips and subtitles in two.
use crate::clip::{by_start, sort_clips, Clip, ClipView, KeyframesView};
use crate::copying::{copy_list, views};
use crate::effect::ScalarKeyframe;
use crate::lists::{first, lemma_first, lemma_first_views, position_by};
use crate::order::{ordered, rank};
use crate::subtitle::{sort_subtitles, subtitles_by_start, SubtitleClip, SubtitleClipView};
use crate::time::{Duration, MAX_NANOS};
use vstd::prelude::*;

verus! {

broadcast use crate::copying::group_views;

/// The shortest piece that a cut may leave: one millisecond.
pub const SHORTEST_PIECE: u128 = 1_000_000;

/// Whether the time is inside the clip and not at its start or end.
pub open spec fn straddles(c: ClipView, t: int) -> bool {
    c.start < t < c.end()
}

/// The keyframes up to the time `d`.
pub open spec fn keys_until(keys: Seq<ScalarKeyframe>, d: int) -> Seq<ScalarKeyframe> {
    keys.filter(|k: ScalarKeyframe| k.time@ <= d)
}

/// The keyframe with its time counted from `d` on.
pub open spec fn key_after(k: ScalarKeyframe, d: int) -> ScalarKeyframe {
    ScalarKeyframe { time: Duration::of(k.time@ - d), value: k.value }
}

/// The keyframes from the time `d` on, with their times counted from it.
pub open spec fn keys_from(keys: Seq<ScalarKeyframe>, d: int) -> Seq<ScalarKeyframe> {
    keys.filter(|k: ScalarKeyframe| k.time@ >= d).map_values(|k: ScalarKeyframe| key_after(k, d))
}

impl KeyframesView {
    /// The keyframes up to the time `d`.
    pub open spec fn until(self, d: int) -> KeyframesView {
        KeyframesView {
            pos_x: keys_until(self.pos_x, d),
            pos_y: keys_until(self.pos_y, d),
            scale: keys_until(self.scale, d),
            rotation: keys_until(self.rotation, d),
            brightness: keys_until(self.brightness, d),
            contrast: keys_until(self.contrast, d),
            saturation: keys_until(self.saturation, d),
            opacity: keys_until(self.opacity, d),
            blur: keys_until(self.blur, d),
        }
    }

    /// The keyframes from the time `d` on, with their times counted from it.
    pub open spec fn from(self, d: int) -> KeyframesView {
        KeyframesView {
            pos_x: keys_from(self.pos_x, d),
            pos_y: keys_from(self.pos_y, d),
            scale: keys_from(self.scale, d),
            rotation: keys_from(self.rotation, d),
            brightness: keys_from(self.brightness, d),
            contrast: keys_from(self.contrast, d),
            saturation: keys_from(self.saturation, d),
            opacity: keys_from(self.opacity, d),
            blur: keys_from(self.blur, d),
        }
    }
}

impl ClipView {
    /// The piece of the clip before the time `t`.
    pub open spec fn left_of(self, t: int, id: u64, group: Option<u64>) -> ClipView {
        ClipView {
            id,
            duration: t - self.start,
            link_group_id: group,
            dissolve_trim_out: 0,
            keyframes: self.keyframes.until(t - self.start),
            ..self
        }
    }

    /// The piece of the clip from the time `t` on.
    pub open spec fn right_of(self, t: int, id: u64, group: Option<u64>) -> ClipView {
        ClipView {
            id,
            start: t,
            duration: self.end() - t,
            source_in: self.source_in + (t - self.start),
            link_group_id: group,
            dissolve_trim_in: 0,
            keyframes: self.keyframes.from(t - self.start),
            ..self
        }
    }
}

/// A row of clips after a cut, the next free id, and the id of the piece behind the
/// cut where there was one.
pub ghost struct Cut {
    pub clips: Seq<ClipView>,
    pub next_id: int,
    pub right_id: Option<u64>,
}

/// The place of the clip with the given id that has `t` inside.
pub open spec fn cut_place(clips: Seq<ClipView>, clip_id: u64, t: int) -> int {
    first(clips, |c: ClipView| c.id == clip_id && straddles(c, t))
}

/// Whether a cut of the clip at `t` leaves pieces that are long enough.
pub open spec fn pieces_are_long_enough(c: ClipView, t: int) -> bool {
    t - c.start >= SHORTEST_PIECE && c.end() - t >= SHORTEST_PIECE
}

/// `clips` with the one at `at` replaced by its two pieces, in order of start.
pub open spec fn with_pieces(
    clips: Seq<ClipView>,
    at: int,
    left: ClipView,
    right: ClipView,
) -> Seq<ClipView> {
    by_start(clips.take(at) + seq![left, right] + clips.skip(at + 1))
}

/// Cuts the clip with the given id at `t`; its pieces go to the given link groups.
pub open spec fn cut_clip(
    clips: Seq<ClipView>,
    next_id: int,
    clip_id: u64,
    t: int,
    left_group: Option<u64>,
    right_group: Option<u64>,
) -> Cut {
    let at = cut_place(clips, clip_id, t);
    if at < clips.len() && pieces_are_long_enough(clips[at], t) {
        Cut {
            clips: with_pieces(
                clips,
                at,
                clips[at].left_of(t, next_id as u64, left_group),
                clips[at].right_of(t, (next_id + 1) as u64, right_group),
            ),
            next_id: next_id + 2,
            right_id: Some((next_id + 1) as u64),
        }
    } else {
        Cut { clips, next_id, right_id: None }
    }
}

/// The place of the first clip with `t` inside.
pub open spec fn first_straddler(clips: Seq<ClipView>, t: int) -> int {
    first(clips, |c: ClipView| straddles(c, t))
}

/// The link group of the first clip with the given id.
pub open spec fn group_of(clips: Seq<ClipView>, clip_id: u64) -> Option<u64> {
    let at = first(clips, |c: ClipView| c.id == clip_id);
    if at < clips.len() {
        clips[at].link_group_id
    } else {
        None
    }
}

/// Cuts the first clip that has `t` inside; both pieces stay in its link group.
pub open spec fn cut_first(clips: Seq<ClipView>, next_id: int, t: int) -> Cut {
    let at = first_straddler(clips, t);
    if at < clips.len() {
        let group = group_of(clips, clips[at].id);
        cut_clip(clips, next_id, clips[at].id, t, group, group)
    } else {
        Cut { clips, next_id, right_id: None }
    }
}

/// How many clips have `t` inside.
pub open spec fn straddlers(clips: Seq<ClipView>, t: int) -> nat {
    clips.filter(|c: ClipView| straddles(c, t)).len()
}

/// Cuts clips at `t` until no further cut is possible.
pub open spec fn cut_all(clips: Seq<ClipView>, next_id: int, t: int) -> Cut
    decreases straddlers(clips, t),
    via cut_all_ends
{
    let cut = cut_first(clips, next_id, t);
    if cut.right_id is Some {
        cut_all(cut.clips, cut.next_id, t)
    } else {
        cut
    }
}

#[via_fn]
proof fn cut_all_ends(clips: Seq<ClipView>, next_id: int, t: int) {
    lemma_cut_first_shrinks(clips, next_id, t);
}

pub proof fn lemma_filter_insert<T>(s: Seq<T>, at: int, x: T, p: spec_fn(T) -> bool)
    requires
        0 <= at <= s.len(),
    ensures
        s.insert(at, x).filter(p).len() == s.filter(p).len() + if p(x) {
            1int
        } else {
            0
        },
{
    let front = s.take(at);
    let back = s.skip(at);
    assert(s =~= front + back);
    assert(s.insert(at, x) =~= front.push(x) + back);
    Seq::filter_distributes_over_add(front, back, p);
    Seq::filter_distributes_over_add(front.push(x), back, p);
    assert(front.push(x).drop_last() =~= front);
    reveal(Seq::filter);
}

/// Putting a list in order keeps how many entries have a property.
pub proof fn lemma_filter_ordered<T>(s: Seq<T>, key: spec_fn(T) -> int, p: spec_fn(T) -> bool)
    ensures
        ordered(s, key).filter(p).len() == s.filter(p).len(),
    decreases s.len(),
{
    if s.len() > 0 {
        let front = ordered(s.drop_last(), key);
        lemma_filter_ordered(s.drop_last(), key, p);
        crate::order::lemma_rank(front, key(s.last()), key);
        lemma_filter_insert(front, rank(front, key(s.last()), key), s.last(), p);
        reveal(Seq::filter);
    }
}

proof fn lemma_cut_clip_shrinks(
    clips: Seq<ClipView>,
    next_id: int,
    clip_id: u64,
    t: int,
    left_group: Option<u64>,
    right_group: Option<u64>,
)
    ensures
        ({
            let cut = cut_clip(clips, next_id, clip_id, t, left_group, right_group);
            cut.right_id is Some ==> straddlers(cut.clips, t) + 1 == straddlers(clips, t)
        }),
{
    let p = |c: ClipView| straddles(c, t);
    let q = |c: ClipView| c.id == clip_id && straddles(c, t);
    let at = cut_place(clips, clip_id, t);
    lemma_first(clips, q);
    if at < clips.len() && pieces_are_long_enough(clips[at], t) {
        let left = clips[at].left_of(t, next_id as u64, left_group);
        let right = clips[at].right_of(t, (next_id + 1) as u64, right_group);
        let parts = clips.take(at) + seq![left, right] + clips.skip(at + 1);
        lemma_filter_ordered(parts, |c: ClipView| c.start, p);
        let rest = clips.remove(at);
        lemma_filter_insert(rest, at, clips[at], p);
        assert(rest.insert(at, clips[at]) =~= clips);
        lemma_filter_insert(rest, at, right, p);
        lemma_filter_insert(rest.insert(at, right), at, left, p);
        assert(rest.insert(at, right).insert(at, left) =~= parts);
        assert(q(clips[at]));
    }
}

pub proof fn lemma_cut_first_shrinks(clips: Seq<ClipView>, next_id: int, t: int)
    ensures
        cut_first(clips, next_id, t).right_id is Some ==> straddlers(
            cut_first(clips, next_id, t).clips,
            t,
        ) + 1 == straddlers(clips, t),
        cut_first(clips, next_id, t).right_id is Some ==> cut_first(clips, next_id, t).next_id
            == next_id + 2,
{
    let at = first_straddler(clips, t);
    if at < clips.len() {
        let group = group_of(clips, clips[at].id);
        lemma_cut_clip_shrinks(clips, next_id, clips[at].id, t, group, group);
    }
}

/// Splits the keyframes of a clip that is cut after `split_time`.
pub fn split_keyframes(keys: &Vec<ScalarKeyframe>, split_time: Duration) -> (parts: (
    Vec<ScalarKeyframe>,
    Vec<ScalarKeyframe>,
))
    ensures
        parts.0@ == keys_until(keys@, split_time@),
        parts.1@ == keys_from(keys@, split_time@),
{
    let mut left: Vec<ScalarKeyframe> = Vec::new();
    let mut right: Vec<ScalarKeyframe> = Vec::new();
    let ghost early = |k: ScalarKeyframe| k.time@ <= split_time@;
    let ghost late = |k: ScalarKeyframe| k.time@ >= split_time@;
    let ghost shift = |k: ScalarKeyframe| key_after(k, split_time@);
    let mut i: usize = 0;
    proof {
        reveal(Seq::filter);
        assert(keys@.take(0).filter(early) =~= Seq::empty());
        assert(keys@.take(0).filter(late).map_values(shift) =~= Seq::empty());
    }
    while i < keys.len()
        invariant
            i <= keys.len(),
            early == (|k: ScalarKeyframe| k.time@ <= split_time@),
            late == (|k: ScalarKeyframe| k.time@ >= split_time@),
            shift == (|k: ScalarKeyframe| key_after(k, split_time@)),
            left@ == keys@.take(i as int).filter(early),
            right@ == keys@.take(i as int).filter(late).map_values(shift),
        decreases keys.len() - i,
    {
        let key = keys[i];
        proof {
            reveal(Seq::filter);
            assert(keys@.take(i + 1).drop_last() =~= keys@.take(i as int));
            assert(keys@.take(i + 1).last() == key);
        }
        if key.time.nanos <= split_time.nanos {
            left.push(key);
        }
        if key.time.nanos >= split_time.nanos {
            let ghost before = keys@.take(i as int).filter(late);
            let shifted = ScalarKeyframe { time: key.time.minus(split_time), value: key.value };
            right.push(shifted);
            assert(before.push(key).map_values(shift) =~= before.map_values(shift).push(shifted));
        }
        i = i + 1;
    }
    assert(keys@.take(i as int) =~= keys@);
    (left, right)
}

/// Whether the time is inside the clip and not at its start or end.
pub fn is_inside(clip: &Clip, t: Duration) -> (yes: bool)
    ensures
        yes == straddles(clip@, t@),
{
    t.nanos > clip.start.nanos && t.nanos - clip.start.nanos < clip.duration.nanos
}

/// Cuts the clip with the given id at `t`; its pieces go to the given link groups.
pub fn perform_razor_for_clip_id_with_groups(
    track: &mut Vec<Clip>,
    next_id_counter: &mut u64,
    clip_id: u64,
    t: Duration,
    left_group_id: Option<u64>,
    right_group_id: Option<u64>,
) -> (right_id: Option<u64>)
    requires
        *old(next_id_counter) + 2 <= u64::MAX,
        forall|i: int|
            0 <= i < old(track).len() && straddles((#[trigger] old(track)@[i])@, t@)
                ==> old(track)@[i]@.source_in + (t@ - old(track)@[i]@.start) <= MAX_NANOS,
    ensures
        ({
            let cut = cut_clip(
                views(old(track)@),
                *old(next_id_counter) as int,
                clip_id,
                t@,
                left_group_id,
                right_group_id,
            );
            &&& views(final(track)@) == cut.clips
            &&& *final(next_id_counter) == cut.next_id
            &&& right_id == cut.right_id
        }),
{
    let ghost before = track@;
    let ghost wanted = |c: Clip| c.id == clip_id && straddles(c@, t@);
    let test = |c: &Clip| -> (yes: bool)
        ensures
            yes == (c.id == clip_id && straddles(c@, t@)),
    {
        c.id == clip_id && is_inside(c, t)
    };
    let at = position_by(track, test, Ghost(wanted));
    proof {
        lemma_first_views(before, wanted, |c: ClipView| c.id == clip_id && straddles(c, t@));
    }
    if at >= track.len() {
        return None;
    }
    let left_dur = t.minus(track[at].start);
    let right_dur = track[at].duration.minus(left_dur);
    if left_dur.nanos < SHORTEST_PIECE || right_dur.nanos < SHORTEST_PIECE {
        return None;
    }
    let clip = track.remove(at);
    let (left_pos_x, right_pos_x) = split_keyframes(&clip.pos_x_keyframes, left_dur);
    let (left_pos_y, right_pos_y) = split_keyframes(&clip.pos_y_keyframes, left_dur);
    let (left_scale, right_scale) = split_keyframes(&clip.scale_keyframes, left_dur);
    let (left_rotation, right_rotation) = split_keyframes(&clip.rotation_keyframes, left_dur);
    let (left_brightness, right_brightness) = split_keyframes(&clip.brightness_keyframes, left_dur);
    let (left_contrast, right_contrast) = split_keyframes(&clip.contrast_keyframes, left_dur);
    let (left_saturation, right_saturation) = split_keyframes(&clip.saturation_keyframes, left_dur);
    let (left_opacity, right_opacity) = split_keyframes(&clip.opacity_keyframes, left_dur);
    let (left_blur, right_blur) = split_keyframes(&clip.blur_keyframes, left_dur);

    let left_id: u64 = *next_id_counter;
    let right_id: u64 = left_id + 1;
    *next_id_counter = left_id + 2;

    let left = Clip {
        id: left_id,
        label: clip.label.clone(),
        file_path: clip.file_path.clone(),
        start: clip.start,
        duration: left_dur,
        source_in: clip.source_in,
        media_duration: clip.media_duration,
        link_group_id: left_group_id,
        audio_gain_db: clip.audio_gain_db,
        dissolve_trim_in: clip.dissolve_trim_in,
        dissolve_trim_out: Duration::zero(),
        video_effects: copy_list(&clip.video_effects),
        local_mask_layers: copy_list(&clip.local_mask_layers),
        pos_x_keyframes: left_pos_x,
        pos_y_keyframes: left_pos_y,
        scale_keyframes: left_scale,
        rotation_keyframes: left_rotation,
        brightness_keyframes: left_brightness,
        contrast_keyframes: left_contrast,
        saturation_keyframes: left_saturation,
        opacity_keyframes: left_opacity,
        blur_keyframes: left_blur,
    };
    let right = Clip {
        id: right_id,
        label: clip.label.clone(),
        file_path: clip.file_path.clone(),
        start: t,
        duration: right_dur,
        source_in: clip.source_in.plus(left_dur),
        media_duration: clip.media_duration,
        link_group_id: right_group_id,
        audio_gain_db: clip.audio_gain_db,
        dissolve_trim_in: Duration::zero(),
        dissolve_trim_out: clip.dissolve_trim_out,
        video_effects: copy_list(&clip.video_effects),
        local_mask_layers: copy_list(&clip.local_mask_layers),
        pos_x_keyframes: right_pos_x,
        pos_y_keyframes: right_pos_y,
        scale_keyframes: right_scale,
        rotation_keyframes: right_rotation,
        brightness_keyframes: right_brightness,
        contrast_keyframes: right_contrast,
        saturation_keyframes: right_saturation,
        opacity_keyframes: right_opacity,
        blur_keyframes: right_blur,
    };
    let ghost base = before[at as int]@;
    assert(left@ == base.left_of(t@, left_id, left_group_id));
    assert(right@ == base.right_of(t@, right_id, right_group_id));
    track.insert(at, right);
    track.insert(at, left);
    assert(views(track@) =~= views(before).take(at as int) + seq![left@, right@] + views(
        before,
    ).skip(at + 1));
    sort_clips(track);
    Some(right_id)
}

/// Cuts the first clip that has `t` inside; both pieces stay in its link group.
pub fn perform_razor(track: &mut Vec<Clip>, next_id_counter: &mut u64, t: Duration) -> (right_id:
    Option<u64>)
    requires
        *old(next_id_counter) + 2 <= u64::MAX,
        forall|i: int|
            0 <= i < old(track).len() && straddles((#[trigger] old(track)@[i])@, t@)
                ==> old(track)@[i]@.source_in + (t@ - old(track)@[i]@.start) <= MAX_NANOS,
    ensures
        ({
            let cut = cut_first(views(old(track)@), *old(next_id_counter) as int, t@);
            &&& views(final(track)@) == cut.clips
            &&& *final(next_id_counter) == cut.next_id
            &&& right_id == cut.right_id
        }),
{
    let ghost inside = |c: Clip| straddles(c@, t@);
    let test = |c: &Clip| -> (yes: bool)
        ensures
            yes == straddles(c@, t@),
    {
        is_inside(c, t)
    };
    let at = position_by(track, test, Ghost(inside));
    proof {
        lemma_first_views(track@, inside, |c: ClipView| straddles(c, t@));
    }
    if at >= track.len() {
        return None;
    }
    let clip_id: u64 = track[at].id;
    let ghost same_id = |c: Clip| c.id == clip_id;
    let test = |c: &Clip| -> (yes: bool)
        ensures
            yes == (c.id == clip_id),
    {
        c.id == clip_id
    };
    let owner = position_by(track, test, Ghost(same_id));
    proof {
        lemma_first_views(track@, same_id, |c: ClipView| c.id == clip_id);
    }
    let group = if owner < track.len() {
        track[owner].link_group_id
    } else {
        None
    };
    perform_razor_for_clip_id_with_groups(track, next_id_counter, clip_id, t, group, group)
}


// ---------------------------------------------------------------------------
// Subtitles
// ---------------------------------------------------------------------------

/// Whether the time is inside the subtitle and not at its start or end.
pub open spec fn subtitle_straddles(c: SubtitleClipView, t: int) -> bool {
    c.start < t < c.end()
}

/// A row of subtitles after a cut, the next free id, and the id of the piece behind
/// the cut where there was one.
pub ghost struct SubtitleCut {
    pub clips: Seq<SubtitleClipView>,
    pub next_id: int,
    pub right_id: Option<u64>,
}

/// Cuts the first subtitle that has `t` inside. Both pieces show its whole text.
pub open spec fn cut_first_subtitle(
    clips: Seq<SubtitleClipView>,
    next_id: int,
    t: int,
) -> SubtitleCut {
    let at = first(clips, |c: SubtitleClipView| subtitle_straddles(c, t));
    let c = clips[at];
    if at < clips.len() && t - c.start >= SHORTEST_PIECE && c.end() - t >= SHORTEST_PIECE {
        let left = SubtitleClipView { id: next_id as u64, duration: t - c.start, ..c };
        let right = SubtitleClipView {
            id: (next_id + 1) as u64,
            start: t,
            duration: c.end() - t,
            ..c
        };
        SubtitleCut {
            clips: subtitles_by_start(clips.take(at) + seq![left, right] + clips.skip(at + 1)),
            next_id: next_id + 2,
            right_id: Some((next_id + 1) as u64),
        }
    } else {
        SubtitleCut { clips, next_id, right_id: None }
    }
}

/// How many subtitles have `t` inside.
pub open spec fn subtitle_straddlers(clips: Seq<SubtitleClipView>, t: int) -> nat {
    clips.filter(|c: SubtitleClipView| subtitle_straddles(c, t)).len()
}

/// Cuts subtitles at `t` until no further cut is possible.
pub open spec fn cut_all_subtitles(
    clips: Seq<SubtitleClipView>,
    next_id: int,
    t: int,
) -> SubtitleCut
    decreases subtitle_straddlers(clips, t),
    via cut_all_subtitles_ends
{
    let cut = cut_first_subtitle(clips, next_id, t);
    if cut.right_id is Some {
        cut_all_subtitles(cut.clips, cut.next_id, t)
    } else {
        cut
    }
}

#[via_fn]
proof fn cut_all_subtitles_ends(clips: Seq<SubtitleClipView>, next_id: int, t: int) {
    lemma_cut_first_subtitle_shrinks(clips, next_id, t);
}

pub proof fn lemma_cut_first_subtitle_shrinks(
    clips: Seq<SubtitleClipView>,
    next_id: int,
    t: int,
)
    ensures
        cut_first_subtitle(clips, next_id, t).right_id is Some ==> subtitle_straddlers(
            cut_first_subtitle(clips, next_id, t).clips,
            t,
        ) + 1 == subtitle_straddlers(clips, t),
{
    let p = |c: SubtitleClipView| subtitle_straddles(c, t);
    let at = first(clips, p);
    lemma_first(clips, p);
    let c = clips[at];
    if at < clips.len() && t - c.start >= SHORTEST_PIECE && c.end() - t >= SHORTEST_PIECE {
        let left = SubtitleClipView { id: next_id as u64, duration: t - c.start, ..c };
        let right = SubtitleClipView {
            id: (next_id + 1) as u64,
            start: t,
            duration: c.end() - t,
            ..c
        };
        let parts = clips.take(at) + seq![left, right] + clips.skip(at + 1);
        lemma_filter_ordered(parts, |c: SubtitleClipView| c.start, p);
        let rest = clips.remove(at);
        lemma_filter_insert(rest, at, c, p);
        assert(rest.insert(at, c) =~= clips);
        lemma_filter_insert(rest, at, right, p);
        lemma_filter_insert(rest.insert(at, right), at, left, p);
        assert(rest.insert(at, right).insert(at, left) =~= parts);
        assert(p(c));
    }
}

fn subtitle_is_inside(clip: &SubtitleClip, t: Duration) -> (yes: bool)
    ensures
        yes == subtitle_straddles(clip@, t@),
{
    t.nanos > clip.start.nanos && t.nanos - clip.start.nanos < clip.duration.nanos
}

/// Cuts the first subtitle that has `t` inside.
pub fn perform_subtitle_razor(
    track: &mut Vec<SubtitleClip>,
    next_id_counter: &mut u64,
    t: Duration,
) -> (right_id: Option<u64>)
    requires
        *old(next_id_counter) + 2 <= u64::MAX,
    ensures
        ({
            let cut = cut_first_subtitle(views(old(track)@), *old(next_id_counter) as int, t@);
            &&& views(final(track)@) == cut.clips
            &&& *final(next_id_counter) == cut.next_id
            &&& right_id == cut.right_id
        }),
{
    let ghost before = track@;
    let ghost inside = |c: SubtitleClip| subtitle_straddles(c@, t@);
    let test = |c: &SubtitleClip| -> (yes: bool)
        ensures
            yes == subtitle_straddles(c@, t@),
    {
        subtitle_is_inside(c, t)
    };
    let at = position_by(track, test, Ghost(inside));
    proof {
        lemma_first_views(before, inside, |c: SubtitleClipView| subtitle_straddles(c, t@));
    }
    if at >= track.len() {
        return None;
    }
    let left_dur = t.minus(track[at].start);
    let right_dur = track[at].duration.minus(left_dur);
    if left_dur.nanos < SHORTEST_PIECE || right_dur.nanos < SHORTEST_PIECE {
        return None;
    }
    let left_id: u64 = *next_id_counter;
    let right_id: u64 = left_id + 1;
    *next_id_counter = left_id + 2;
    let mut left = track.remove(at);
    let mut right = left.clone();
    left.id = left_id;
    left.duration = left_dur;
    right.id = right_id;
    right.start = t;
    right.duration = right_dur;
    track.insert(at, right);
    track.insert(at, left);
    assert(views(track@) =~= views(before).take(at as int) + seq![left@, right@] + views(
        before,
    ).skip(at + 1));
    sort_subtitles(track);
    Some(right_id)
}

// ---------------------------------------------------------------------------
// Cutting a whole row
// ---------------------------------------------------------------------------

/// Whether the part of the file that each clip shows ends at a time that can be
/// written down.
pub open spec fn sources_fit(clips: Seq<ClipView>) -> bool {
    forall|i: int|
        0 <= i < clips.len() ==> (#[trigger] clips[i]).source_in + clips[i].duration <= MAX_NANOS
}

/// What holds of every entry of a list holds of every entry when it is in order.
pub proof fn lemma_ordered_all<T>(s: Seq<T>, key: spec_fn(T) -> int, p: spec_fn(T) -> bool)
    requires
        forall|i: int| 0 <= i < s.len() ==> p(#[trigger] s[i]),
    ensures
        forall|i: int| 0 <= i < ordered(s, key).len() ==> p(#[trigger] ordered(s, key)[i]),
        ordered(s, key).len() == s.len(),
    decreases s.len(),
{
    if s.len() > 0 {
        let front = ordered(s.drop_last(), key);
        assert forall|i: int| 0 <= i < s.drop_last().len() implies p(#[trigger] s.drop_last()[i]) by {
            assert(p(s[i]));
        }
        lemma_ordered_all(s.drop_last(), key, p);
        crate::order::lemma_rank(front, key(s.last()), key);
        let r = rank(front, key(s.last()), key);
        assert(p(s[s.len() - 1]));
        assert forall|i: int| 0 <= i < ordered(s, key).len() implies p(
            #[trigger] ordered(s, key)[i],
        ) by {
            if i < r {
                assert(ordered(s, key)[i] == front[i]);
            } else if i > r {
                assert(ordered(s, key)[i] == front[i - 1]);
            }
        }
    }
}

/// A cut keeps the shown parts of the files.
pub proof fn lemma_cut_sources_fit(
    clips: Seq<ClipView>,
    next_id: int,
    clip_id: u64,
    t: int,
    left_group: Option<u64>,
    right_group: Option<u64>,
)
    requires
        sources_fit(clips),
    ensures
        sources_fit(cut_clip(clips, next_id, clip_id, t, left_group, right_group).clips),
{
    let at = cut_place(clips, clip_id, t);
    lemma_first(clips, |c: ClipView| c.id == clip_id && straddles(c, t));
    if at < clips.len() && pieces_are_long_enough(clips[at], t) {
        let left = clips[at].left_of(t, next_id as u64, left_group);
        let right = clips[at].right_of(t, (next_id + 1) as u64, right_group);
        let parts = clips.take(at) + seq![left, right] + clips.skip(at + 1);
        let p = |c: ClipView| c.source_in + c.duration <= MAX_NANOS;
        assert forall|i: int| 0 <= i < parts.len() implies p(#[trigger] parts[i]) by {
            if i < at {
                assert(parts[i] == clips[i]);
            } else if i > at + 1 {
                assert(parts[i] == clips[i - 1]);
            }
        }
        lemma_ordered_all(parts, |c: ClipView| c.start, p);
        assert forall|i: int| 0 <= i < by_start(parts).len() implies (#[trigger] by_start(
            parts,
        )[i]).source_in + by_start(parts)[i].duration <= MAX_NANOS by {
            assert(p(ordered(parts, |c: ClipView| c.start)[i]));
        }
    }
}

/// Cuts clips at `t` until no further cut is possible.
pub fn razor_all_clips_at(track: &mut Vec<Clip>, next_id_counter: &mut u64, t: Duration)
    requires
        sources_fit(views(old(track)@)),
        *old(next_id_counter) + 2 * straddlers(views(old(track)@), t@) + 2 <= u64::MAX,
    ensures
        ({
            let cut = cut_all(views(old(track)@), *old(next_id_counter) as int, t@);
            &&& views(final(track)@) == cut.clips
            &&& *final(next_id_counter) == cut.next_id
            &&& *final(next_id_counter) <= *old(next_id_counter) + 2 * straddlers(
                views(old(track)@),
                t@,
            )
        }),
        sources_fit(views(final(track)@)),
{
    let ghost clips = views(track@);
    let ghost next_id = *next_id_counter as int;
    let mut going = true;
    while going
        invariant
            sources_fit(views(track@)),
            *next_id_counter + 2 * straddlers(views(track@), t@) <= next_id + 2 * straddlers(
                clips,
                t@,
            ),
            next_id + 2 * straddlers(clips, t@) + 2 <= u64::MAX,
            going ==> cut_all(clips, next_id, t@) == cut_all(
                views(track@),
                *next_id_counter as int,
                t@,
            ),
            !going ==> views(track@) == cut_all(clips, next_id, t@).clips && *next_id_counter
                == cut_all(clips, next_id, t@).next_id,
        decreases straddlers(views(track@), t@), if going { 1int } else { 0 },
    {
        let ghost before = views(track@);
        let ghost id = *next_id_counter as int;
        proof {
            lemma_cut_first_shrinks(before, id, t@);
            let at = first_straddler(before, t@);
            if at < before.len() {
                let group = group_of(before, before[at].id);
                lemma_cut_sources_fit(before, id, before[at].id, t@, group, group);
            }
            assert forall|i: int| 0 <= i < track@.len() && straddles(
                (#[trigger] track@[i])@,
                t@,
            ) implies track@[i]@.source_in + (t@ - track@[i]@.start) <= MAX_NANOS by {
                assert(views(track@)[i].source_in + views(track@)[i].duration <= MAX_NANOS);
            }
        }
        let right_id = perform_razor(track, next_id_counter, t);
        going = right_id.is_some();
    }
}

/// Cuts subtitles at `t` until no further cut is possible.
pub fn razor_all_subtitles_at(
    track: &mut Vec<SubtitleClip>,
    next_id_counter: &mut u64,
    t: Duration,
)
    requires
        *old(next_id_counter) + 2 * subtitle_straddlers(views(old(track)@), t@) + 2 <= u64::MAX,
    ensures
        ({
            let cut = cut_all_subtitles(views(old(track)@), *old(next_id_counter) as int, t@);
            &&& views(final(track)@) == cut.clips
            &&& *final(next_id_counter) == cut.next_id
            &&& *final(next_id_counter) <= *old(next_id_counter) + 2 * subtitle_straddlers(
                views(old(track)@),
                t@,
            )
        }),
{
    let ghost clips = views(track@);
    let ghost next_id = *next_id_counter as int;
    let mut going = true;
    while going
        invariant
            *next_id_counter + 2 * subtitle_straddlers(views(track@), t@) <= next_id + 2
                * subtitle_straddlers(clips, t@),
            next_id + 2 * subtitle_straddlers(clips, t@) + 2 <= u64::MAX,
            going ==> cut_all_subtitles(clips, next_id, t@) == cut_all_subtitles(
                views(track@),
                *next_id_counter as int,
                t@,
            ),
            !going ==> views(track@) == cut_all_subtitles(clips, next_id, t@).clips
                && *next_id_counter == cut_all_subtitles(clips, next_id, t@).next_id,
        decreases subtitle_straddlers(views(track@), t@), if going { 1int } else { 0 },
    {
        proof {
            lemma_cut_first_subtitle_shrinks(views(track@), *next_id_counter as int, t@);
        }
        let right_id = perform_subtitle_razor(track, next_id_counter, t);
        going = right_id.is_some();
    }
}

/// The time of its file that a clip shows at a time of the timeline.
pub open spec fn shown_source(c: ClipView, x: int) -> int {
    c.source_in + (x - c.start)
}

/// The two pieces of a clip meet where it was cut, cover just what it covered, and show at
/// every time what it showed.
pub proof fn cut_keeps_what_is_shown(
    c: ClipView,
    t: int,
    left_id: u64,
    right_id: u64,
    left_group: Option<u64>,
    right_group: Option<u64>,
    x: int,
)
    requires
        straddles(c, t),
    ensures
        ({
            let left = c.left_of(t, left_id, left_group);
            let right = c.right_of(t, right_id, right_group);
            &&& left.start == c.start && left.end() == t
            &&& right.start == t && right.end() == c.end()
            &&& left.duration + right.duration == c.duration
            &&& c.start <= x < t ==> shown_source(left, x) == shown_source(c, x)
            &&& t <= x < c.end() ==> shown_source(right, x) == shown_source(c, x)
            &&& left.file_path == c.file_path && right.file_path == c.file_path
            &&& left.video_effects == c.video_effects && right.video_effects == c.video_effects
        }),
{
}

/// A cut replaces one clip by its pieces and leaves all others as they were.
pub proof fn cut_leaves_other_clips(
    clips: Seq<ClipView>,
    at: int,
    left: ClipView,
    right: ClipView,
    i: int,
)
    requires
        0 <= at < clips.len(),
        0 <= i < clips.len(),
        i != at,
    ensures
        with_pieces(clips, at, left, right).len() == clips.len() + 1,
        with_pieces(clips, at, left, right).contains(clips[i]),
        with_pieces(clips, at, left, right).contains(left),
        with_pieces(clips, at, left, right).contains(right),
{
    broadcast use vstd::seq_lib::group_to_multiset_ensures;

    let plain = clips.take(at) + seq![left, right] + clips.skip(at + 1);
    let out = with_pieces(clips, at, left, right);
    crate::order::ordered_is_sorted_permutation(plain, |c: ClipView| c.start);
    assert(plain[at] == left);
    assert(plain[at + 1] == right);
    if i < at {
        assert(plain[i] == clips[i]);
    } else {
        assert(plain[i + 1] == clips[i]);
    }
    assert(plain.contains(clips[i]) && plain.contains(left) && plain.contains(right));
    assert(plain.to_multiset().count(clips[i]) > 0);
    assert(plain.to_multiset().count(left) > 0);
    assert(plain.to_multiset().count(right) > 0);
    assert(out.to_multiset() == plain.to_multiset());
}

} // verus!
