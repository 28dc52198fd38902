//! Whether what is exported is told completely, so that its command can be written.
use crate::clip::{Clip, ClipView};
use crate::copying::views;
use crate::export_clip::ExportLook;
use crate::export_effects::ClipWords;
use crate::export_graph::{
    clip_segment_for_export, picture_count, sound_count, DissolveCut, ExportAudioLane,
    ExportAudioLaneView, ExportContent, ExportLane, ExportLaneView,
};
use crate::export_settings::ExportSettings;
use crate::time::Duration;
use vstd::prelude::*;

verus! {

broadcast use crate::copying::group_views;

fn words_tell(w: &ClipWords, c: &Clip) -> (yes: bool)
    ensures
        yes == w@.tells(c@),
{
    w.scale_keys.len() == c.scale_keyframes.len() && w.rotation_keys.len()
        == c.rotation_keyframes.len() && w.pos_x_keys.len() == c.pos_x_keyframes.len()
        && w.pos_y_keys.len() == c.pos_y_keyframes.len() && w.brightness_keys.len()
        == c.brightness_keyframes.len() && w.contrast_keys.len() == c.contrast_keyframes.len()
        && w.saturation_keys.len() == c.saturation_keyframes.len() && w.opacity_keys.len()
        == c.opacity_keyframes.len() && w.masks.len() == c.local_mask_layer_count()
}

/// All pieces of a clip have as many keyframes and mask layers.
proof fn lemma_pieces_alike(c: ClipView, source: int, start: int, length: int, clear: bool)
    ensures
        ({
            let a = c.segment(source, start, length, clear);
            let b = c.segment(0, 0, 0, clear);
            a.keyframes == b.keyframes && a.shown_layers().len() == b.shown_layers().len()
        }),
{
    reveal(ClipView::segment);
}

fn cut_tells(cut: &DissolveCut, left: &Clip, right: &Clip) -> (yes: bool)
    ensures
        yes == cut@.tells(left@, right@),
{
    let none = Duration::zero();
    let a = clip_segment_for_export(left, none, none, none, true);
    let b = clip_segment_for_export(right, none, none, none, false);
    proof {
        assert forall|source: int, start: int, length: int| a@ == left@.segment(
            0,
            0,
            0,
            true,
        ) implies cut@.left.tells(a@) == cut@.left.tells(
            #[trigger] left@.segment(source, start, length, true),
        ) by {
            lemma_pieces_alike(left@, source, start, length, true);
        }
        assert forall|source: int, start: int, length: int| b@ == right@.segment(
            0,
            0,
            0,
            false,
        ) implies cut@.right.tells(b@) == cut@.right.tells(
            #[trigger] right@.segment(source, start, length, false),
        ) by {
            lemma_pieces_alike(right@, source, start, length, false);
        }
    }
    words_tell(&cut.left, &a) && words_tell(&cut.right, &b)
}

fn lane_told(lane: &ExportLane) -> (yes: bool)
    ensures
        yes == lane@.told(),
{
    let cuts: usize = if lane.clips.len() > 0 {
        lane.clips.len() - 1
    } else {
        0
    };
    if lane.cuts.len() != cuts {
        return false;
    }
    let mut i: usize = 0;
    while i < lane.clips.len()
        invariant
            i <= lane.clips.len(),
            forall|j: int|
                0 <= j < i ==> (#[trigger] lane@.clips[j]).words.tells(lane@.clips[j].clip),
        decreases lane.clips.len() - i,
    {
        assert(lane@.clips[i as int] == lane.clips@[i as int]@);
        if !words_tell(&lane.clips[i].words, &lane.clips[i].clip) {
            return false;
        }
        i += 1;
    }
    let mut i: usize = 0;
    while i < lane.cuts.len()
        invariant
            i <= lane.cuts.len(),
            lane.cuts.len() > 0 ==> lane.cuts.len() + 1 == lane.clips.len(),
            forall|j: int|
                0 <= j < i ==> (#[trigger] lane@.cuts[j]).tells(
                    lane@.clips[j].clip,
                    lane@.clips[j + 1].clip,
                ),
        decreases lane.cuts.len() - i,
    {
        assert(lane@.cuts[i as int] == lane.cuts@[i as int]@);
        assert(lane@.clips[i as int] == lane.clips@[i as int]@);
        assert(lane@.clips[i + 1] == lane.clips@[i + 1]@);
        if !cut_tells(&lane.cuts[i], &lane.clips[i].clip, &lane.clips[i + 1].clip) {
            return false;
        }
        i += 1;
    }
    true
}

impl ExportContent {
    /// Whether each clip and each cut of the pictures has its words.
    pub fn is_told(&self) -> (yes: bool)
        ensures
            yes == self@.told(),
    {
        if !lane_told(&self.v1) {
            return false;
        }
        let mut k: usize = 0;
        while k < self.overlays.len()
            invariant
                k <= self.overlays.len(),
                forall|j: int| 0 <= j < k ==> (#[trigger] self@.overlays[j]).told(),
            decreases self.overlays.len() - k,
        {
            assert(self@.overlays[k as int] == self.overlays@[k as int]@);
            if !lane_told(&self.overlays[k]) {
                return false;
            }
            k += 1;
        }
        true
    }
}

proof fn lemma_picture_count_grows(lanes: Seq<ExportLaneView>, i: int, n: int)
    requires
        0 <= i <= n <= lanes.len(),
    ensures
        0 <= picture_count(lanes, i) <= picture_count(lanes, n),
    decreases n,
{
    if i < n {
        lemma_picture_count_grows(lanes, i, n - 1);
    } else if i > 0 {
        lemma_picture_count_grows(lanes, i - 1, i - 1);
    }
}

proof fn lemma_sound_count_grows(lanes: Seq<ExportAudioLaneView>, i: int, n: int)
    requires
        0 <= i <= n <= lanes.len(),
    ensures
        0 <= sound_count(lanes, i) <= sound_count(lanes, n),
    decreases n,
{
    if i < n {
        lemma_sound_count_grows(lanes, i, n - 1);
    } else if i > 0 {
        lemma_sound_count_grows(lanes, i - 1, i - 1);
    }
}

fn count_pictures_of(lanes: &Vec<ExportLane>) -> (n: Option<usize>)
    ensures
        ({
            let list = views(lanes@);
            let all = picture_count(list, list.len() as int);
            match n {
                Some(n) => n == all && forall|k: int|
                    0 <= k < list.len() ==> (#[trigger] list[k]).clips.len() < usize::MAX / 2 - 1,
                None => all > usize::MAX || exists|k: int|
                    0 <= k < list.len() && (#[trigger] list[k]).clips.len() >= usize::MAX / 2 - 1,
            }
        }),
{
    let ghost list = views(lanes@);
    let mut n: usize = 0;
    let mut k: usize = 0;
    while k < lanes.len()
        invariant
            k <= lanes.len(),
            list == views(lanes@),
            n == picture_count(list, k as int),
            forall|j: int| 0 <= j < k ==> (#[trigger] list[j]).clips.len() < usize::MAX / 2 - 1,
        decreases lanes.len() - k,
    {
        let more: usize = lanes[k].clips.len();
        assert(list[k as int].clips.len() == more);
        proof {
            lemma_picture_count_grows(list, k + 1, list.len() as int);
        }
        if more >= usize::MAX / 2 - 1 || n > usize::MAX - more {
            return None;
        }
        n += more;
        k += 1;
    }
    Some(n)
}

fn count_sounds_of(lanes: &Vec<ExportAudioLane>) -> (n: Option<usize>)
    ensures
        ({
            let list = views(lanes@);
            let all = sound_count(list, list.len() as int);
            match n {
                Some(n) => n == all && forall|k: int|
                    0 <= k < list.len() ==> (#[trigger] list[k]).sounds.len() < usize::MAX / 2 - 1,
                None => all > usize::MAX || exists|k: int|
                    0 <= k < list.len() && (#[trigger] list[k]).sounds.len() >= usize::MAX / 2 - 1,
            }
        }),
{
    let ghost list = views(lanes@);
    let mut n: usize = 0;
    let mut k: usize = 0;
    while k < lanes.len()
        invariant
            k <= lanes.len(),
            list == views(lanes@),
            n == sound_count(list, k as int),
            forall|j: int| 0 <= j < k ==> (#[trigger] list[j]).sounds.len() < usize::MAX / 2 - 1,
        decreases lanes.len() - k,
    {
        let more: usize = lanes[k].sounds.len();
        assert(list[k as int].sounds.len() == more);
        proof {
            lemma_sound_count_grows(list, k + 1, list.len() as int);
        }
        if more >= usize::MAX / 2 - 1 || n > usize::MAX - more {
            return None;
        }
        n += more;
        k += 1;
    }
    Some(n)
}

impl ExportContent {
    /// Whether all pictures, sounds and subtitles can be counted.
    pub fn is_countable(&self) -> (yes: bool)
        ensures
            yes == self@.countable(),
    {
        proof {
            lemma_picture_count_grows(self@.overlays, 0, self@.overlays.len() as int);
            lemma_sound_count_grows(self@.sounds, 0, self@.sounds.len() as int);
        }
        if self.v1.clips.len() >= usize::MAX / 2 - 1 {
            return false;
        }
        match (count_pictures_of(&self.overlays), count_sounds_of(&self.sounds)) {
            (Some(pictures), Some(sounds)) => {
                self.v1.clips.len() as u128 + pictures as u128 + sounds as u128
                    + self.subtitles.len() as u128 <= usize::MAX as u128
            },
            _ => false,
        }
    }
}

impl ExportLook {
    /// Whether each transition of the layers' scripts has its words.
    pub fn is_told(&self) -> (yes: bool)
        ensures
            yes == self@.told(),
    {
        let mut i: usize = 0;
        while i < self.layers.len()
            invariant
                i <= self.layers.len(),
                forall|j: int|
                    0 <= j < i ==> ((#[trigger] self@.layers[j]).active_script() matches Some(s)
                        ==> s.told()),
            decreases self.layers.len() - i,
        {
            assert(self@.layers[i as int] == self.layers@[i as int]@);
            if let Some(s) = self.layers[i].script_in_use() {
                if s.words.transitions.len() != s.plan.transitions.len() {
                    return false;
                }
            }
            i += 1;
        }
        true
    }
}

/// Whether the command of an export can be written: all is counted and told, and the pictures have
/// the rate of the settings.
pub fn is_ready(content: &ExportContent, look: &ExportLook, settings: &ExportSettings) -> (yes: bool)
    ensures
        yes == (content@.countable() && content@.told() && look@.told() && look@.fps
            == settings@.rate()),
{
    content.is_countable() && content.is_told() && look.is_told() && look.fps
        == settings.normalized_fps()
}

} // verus!
