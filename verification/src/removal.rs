//! Deleting what is selected, whole tracks, and changing lengths.
use crate::anchors::in_expansion;
use crate::clip::{by_start, sort_clips, Clip, ClipView};
use crate::copying::views;
use crate::lanes::{lemma_lanes_put, lemma_lanes_put_back, Lane};
use crate::layer::LayerEffectClipView;
use crate::lists::{first, holds, last_id, last_of, lemma_filter_views, lemma_first_views, position_by, retain_by};
use crate::modes::TrackType;
use crate::moves::{find_clip, find_subtitle, pack, packed, place_of, subtitle_place};
use crate::state::{GlobalState, Selection, SelectionView, StateView};
use crate::subtitle::{SubtitleClip, SubtitleClipView, SubtitleTrackView};
use crate::text::{ends_in, ends_with, to_lowercase, unicode_lowercase};
use crate::time::{clamped, greatest, monus, Duration};
use crate::tracks::{SemanticClip, SemanticClipView, Timeline, TimelineView};
use vstd::prelude::*;

verus! {

broadcast use crate::copying::group_views;

// ---------------------------------------------------------------------------
// Selected clips and subtitles
// ---------------------------------------------------------------------------

/// The row without the clips that are to go.
pub open spec fn lane_without(lane: Lane, goes: spec_fn(u64) -> bool) -> Lane {
    lane.filter(|c: ClipView| !goes(c.id))
}

/// The main track without the clips that are to go; the others close up if any went.
pub open spec fn v1_without(lane: Lane, goes: spec_fn(u64) -> bool) -> Lane {
    let left = lane_without(lane, goes);
    if left.len() == lane.len() {
        left
    } else {
        packed(by_start(left))
    }
}

impl TimelineView {
    /// The timeline without the clips that are to go. Linked clips follow the main
    /// track where it closes up.
    #[verifier::opaque]
    pub open spec fn without_clips(self, goes: spec_fn(u64) -> bool) -> TimelineView {
        let t = self.with_lanes(
            Seq::new(
                self.lane_count(),
                |i: int|
                    if i == 0 {
                        v1_without(self.lane(0), goes)
                    } else {
                        lane_without(self.lane(i), goes)
                    },
            ),
        );
        if lane_without(self.v1_clips, goes).len() == self.v1_clips.len() {
            t
        } else {
            t.following_v1(self.v1_clips)
        }
    }

    /// The timeline without the clips with the ids and those that they are linked with.
    pub open spec fn clips_deleted(self, ids: Seq<u64>) -> TimelineView {
        if ids.len() == 0 {
            self
        } else {
            self.without_clips(|id: u64| in_expansion(self.all_clips(), ids, id))
        }
    }

    /// The timeline without the subtitles with the ids.
    #[verifier::opaque]
    pub open spec fn subtitles_deleted(self, ids: Seq<u64>) -> TimelineView {
        TimelineView {
            subtitle_tracks: Seq::new(
                self.subtitle_tracks.len(),
                |k: int|
                    SubtitleTrackView {
                        clips: self.subtitle_tracks[k].clips.filter(
                            |c: SubtitleClipView| !ids.contains(c.id),
                        ),
                        ..self.subtitle_tracks[k]
                    },
            ),
            ..self
        }
    }

    /// The timeline without the marked stretch with the id.
    pub open spec fn semantic_deleted(self, id: Option<u64>) -> TimelineView {
        TimelineView {
            semantic_clips: match id {
                Some(x) => self.semantic_clips.filter(|c: SemanticClipView| c.id != x),
                None => self.semantic_clips,
            },
            ..self
        }
    }

    /// The id of the selected marked stretch, if it is there.
    pub open spec fn selected_semantic(self) -> Option<u64> {
        match self.selected_semantic_clip_id {
            Some(id) => if semantic_place(self.semantic_clips, id) < self.semantic_clips.len() {
                Some(id)
            } else {
                None
            },
            None => None,
        }
    }

    /// The timeline without the clips and what they are linked with, the subtitles and
    /// the marked stretch.
    #[verifier::opaque]
    pub open spec fn items_deleted(
        self,
        clip_ids: Seq<u64>,
        subtitle_ids: Seq<u64>,
        semantic_id: Option<u64>,
    ) -> TimelineView {
        self.clips_deleted(clip_ids).subtitles_deleted(subtitle_ids).semantic_deleted(
            semantic_id,
        ).nothing_selected()
    }

    /// The timeline with no layer effect and no marked stretch selected.
    pub open spec fn nothing_selected(self) -> TimelineView {
        TimelineView {
            selected_layer_effect_clip_id: None,
            selected_semantic_clip_id: None,
            ..self
        }
    }
}

/// The place of the marked stretch with the id.
pub open spec fn semantic_place(clips: Seq<SemanticClipView>, id: u64) -> int {
    first(clips, |c: SemanticClipView| c.id == id)
}

/// The place of the marked stretch with the id, or the length.
pub fn find_semantic(clips: &Vec<SemanticClip>, id: u64) -> (at: usize)
    ensures
        at == semantic_place(views(clips@), id),
        at <= clips.len(),
        at < clips.len() ==> clips@[at as int].id == id,
{
    let ghost p = |c: SemanticClip| c.id == id;
    let test = |c: &SemanticClip| -> (yes: bool)
        ensures
            yes == (c.id == id),
    {
        c.id == id
    };
    proof {
        lemma_first_views(clips@, p, |c: SemanticClipView| c.id == id);
    }
    position_by(clips, test, Ghost(p))
}

fn retain_clips(lane: &mut Vec<Clip>, ids: &Vec<u64>, Ghost(goes): Ghost<spec_fn(u64) -> bool>)
    requires
        forall|id: u64| #[trigger] ids@.contains(id) <==> goes(id),
    ensures
        views(final(lane)@) == lane_without(views(old(lane)@), goes),
        final(lane).len() <= old(lane).len(),
{
    let ghost before = lane@;
    let ghost p = |c: Clip| !goes(c.id);
    let keep = |c: &Clip| -> (yes: bool)
        ensures
            yes == !goes(c.id),
    {
        !holds(ids, c.id)
    };
    retain_by(lane, keep, Ghost(p));
    proof {
        lemma_filter_views(before, p, |c: ClipView| !goes(c.id));
    }
}

impl Timeline {
    fn delete_ids(&mut self, ids: &Vec<u64>, Ghost(goes): Ghost<spec_fn(u64) -> bool>)
        requires
            old(self)@.lane_count() <= usize::MAX,
            forall|id: u64| #[trigger] ids@.contains(id) <==> goes(id),
        ensures
            final(self)@ == old(self)@.without_clips(goes),
    {
        reveal(TimelineView::without_clips);
        let ghost base = self@;
        let anchors = self.v1_group_anchor_starts();
        let before_len: usize = self.v1_clips.len();
        let n: usize = self.lane_count();
        let ghost mut now = base.lanes();
        let mut closed_up = false;
        let mut i: usize = 0;
        proof {
            lemma_lanes_put_back(base);
        }
        while i < n
            invariant
                i <= n,
                n == base.lane_count(),
                now.len() == n,
                before_len == base.v1_clips.len(),
                self@ == base.with_lanes(now),
                forall|id: u64| #[trigger] ids@.contains(id) <==> goes(id),
                i == 0 ==> !closed_up,
                i > 0 ==> closed_up == (lane_without(base.v1_clips, goes).len() != before_len),
                forall|j: int|
                    0 <= j < i ==> #[trigger] now[j] == if j == 0 {
                        v1_without(base.lane(0), goes)
                    } else {
                        lane_without(base.lane(j), goes)
                    },
                forall|j: int| i <= j < n ==> #[trigger] now[j] == base.lane(j),
            decreases n - i,
        {
            proof {
                lemma_lanes_put(base, now);
            }
            let lane = self.lane_mut(i);
            assert(views(lane@) == base.lane(i as int));
            retain_clips(lane, ids, Ghost(goes));
            if i == 0 && lane.len() != before_len {
                sort_clips(lane);
                pack(lane);
                closed_up = true;
            }
            proof {
                now = now.update(i as int, views(lane@));
            }
            i = i + 1;
        }
        proof {
            assert(now =~= Seq::new(
                base.lane_count(),
                |i: int|
                    if i == 0 {
                        v1_without(base.lane(0), goes)
                    } else {
                        lane_without(base.lane(i), goes)
                    },
            ));
            lemma_lanes_put(base, now);
        }
        if closed_up {
            self.sync_linked_tracks_from_v1_deltas(&anchors, Ghost(base.v1_clips));
        }
    }

    fn delete_clips(&mut self, ids: &Vec<u64>)
        requires
            old(self)@.lane_count() <= usize::MAX,
        ensures
            final(self)@ == old(self)@.clips_deleted(ids@),
    {
        if ids.len() > 0 {
            let all = self.expand_clip_ids_by_link_group(ids);
            let ghost clips = self@.all_clips();
            self.delete_ids(&all, Ghost(|id: u64| in_expansion(clips, ids@, id)));
        }
    }

    fn delete_subtitles(&mut self, ids: &Vec<u64>)
        ensures
            final(self)@ == old(self)@.subtitles_deleted(ids@),
    {
        reveal(TimelineView::subtitles_deleted);
        let ghost base = self@;
        let mut k: usize = 0;
        while k < self.subtitle_tracks.len()
            invariant
                k <= self.subtitle_tracks.len(),
                self.subtitle_tracks.len() == base.subtitle_tracks.len(),
                self@ == (TimelineView { subtitle_tracks: self@.subtitle_tracks, ..base }),
                forall|j: int|
                    0 <= j < k ==> #[trigger] self@.subtitle_tracks[j] == base.subtitles_deleted(
                        ids@,
                    ).subtitle_tracks[j],
                forall|j: int|
                    k <= j < base.subtitle_tracks.len() ==> #[trigger] self@.subtitle_tracks[j]
                        == base.subtitle_tracks[j],
            decreases self.subtitle_tracks.len() - k,
        {
            reveal(TimelineView::subtitles_deleted);
            assert(self@.subtitle_tracks[k as int] == base.subtitle_tracks[k as int]);
            let ghost before = self.subtitle_tracks@;
            let ghost clips = self.subtitle_tracks@[k as int].clips@;
            let ghost p = |c: SubtitleClip| !ids@.contains(c.id);
            let keep = |c: &SubtitleClip| -> (yes: bool)
                ensures
                    yes == !ids@.contains(c.id),
            {
                !holds(ids, c.id)
            };
            retain_by(&mut self.subtitle_tracks[k].clips, keep, Ghost(p));
            proof {
                lemma_filter_views(clips, p, |c: SubtitleClipView| !ids@.contains(c.id));
                assert(self.subtitle_tracks@ =~= before.update(
                    k as int,
                    self.subtitle_tracks@[k as int],
                ));
            }
            k = k + 1;
        }
        assert(self@.subtitle_tracks =~= base.subtitles_deleted(ids@).subtitle_tracks);
    }

    pub(crate) fn delete_semantic(&mut self, id: Option<u64>)
        ensures
            final(self)@ == old(self)@.semantic_deleted(id),
    {
        if let Some(x) = id {
            let ghost before = self.semantic_clips@;
            let ghost p = |c: SemanticClip| c.id != x;
            let keep = |c: &SemanticClip| -> (yes: bool)
                ensures
                    yes == (c.id != x),
            {
                c.id != x
            };
            retain_by(&mut self.semantic_clips, keep, Ghost(p));
            proof {
                lemma_filter_views(before, p, |c: SemanticClipView| c.id != x);
            }
        }
    }

    fn delete_items(
        &mut self,
        clip_ids: &Vec<u64>,
        subtitle_ids: &Vec<u64>,
        semantic_id: Option<u64>,
    )
        requires
            old(self)@.lane_count() <= usize::MAX,
        ensures
            final(self)@ == old(self)@.items_deleted(clip_ids@, subtitle_ids@, semantic_id),
    {
        reveal(TimelineView::items_deleted);
        self.delete_clips(clip_ids);
        self.delete_subtitles(subtitle_ids);
        self.delete_semantic(semantic_id);
        self.select_nothing();
    }

    /// The id of the selected marked stretch, if it is there.
    pub(crate) fn selected_semantic(&self) -> (id: Option<u64>)
        ensures
            id == self@.selected_semantic(),
    {
        match self.selected_semantic_clip_id {
            Some(id) => {
                if find_semantic(&self.semantic_clips, id) < self.semantic_clips.len() {
                    Some(id)
                } else {
                    None
                }
            },
            None => None,
        }
    }

    /// Selects no layer effect and no marked stretch.
    pub(crate) fn select_nothing(&mut self)
        ensures
            final(self)@ == old(self)@.nothing_selected(),
    {
        self.selected_layer_effect_clip_id = None;
        self.selected_semantic_clip_id = None;
    }
}

impl Selection {
    /// Selects nothing.
    pub(crate) fn clear(&mut self)
        ensures
            final(self)@ == SelectionView::nothing(),
    {
        self.selected_clip_id = None;
        self.selected_subtitle_id = None;
        self.selected_clip_ids.clear();
        self.selected_subtitle_ids.clear();
    }
}

impl StateView {
    /// Whether anything is selected that can be deleted.
    pub open spec fn has_deletable(self) -> bool {
        let s = self.repaired();
        s.selection.clip_ids().len() > 0 || s.selection.subtitle_ids().len() > 0
            || s.timeline.selected_semantic() is Some
    }

    /// The state without what was selected, and with nothing selected.
    pub open spec fn selected_deleted(self) -> StateView {
        let r = self.repaired();
        if !self.has_deletable() {
            r
        } else {
            r.listed_deleted(
                r.selection.clip_ids(),
                r.selection.subtitle_ids(),
                r.timeline.selected_semantic(),
            )
        }
    }

    /// The state without what is listed, and with nothing selected.
    #[verifier::opaque]
    pub open spec fn listed_deleted(
        self,
        clip_ids: Seq<u64>,
        subtitle_ids: Seq<u64>,
        semantic_id: Option<u64>,
    ) -> StateView {
        let s = self.saved(false);
        StateView {
            timeline: s.timeline.items_deleted(clip_ids, subtitle_ids, semantic_id),
            selection: SelectionView::nothing(),
            ..s
        }
    }
}

impl GlobalState {
    /// Deletes what is selected: clips with all that they are linked with, subtitles and
    /// a marked stretch. Says whether there was anything.
    pub fn delete_selected_items(&mut self) -> (deleted: bool)
        requires
            old(self)@.timeline.lane_count() <= usize::MAX,
        ensures
            deleted == old(self)@.has_deletable(),
            final(self)@ == old(self)@.selected_deleted(),
    {
        self.repair_missing_primary_av_links();
        let clip_ids = self.selection.clip_ids();
        let subtitle_ids = self.selection.subtitle_ids();
        let semantic_id = self.timeline.selected_semantic();
        if clip_ids.len() == 0 && subtitle_ids.len() == 0 && semantic_id.is_none() {
            return false;
        }
        self.delete_listed(&clip_ids, &subtitle_ids, semantic_id);
        true
    }

    fn delete_listed(
        &mut self,
        clip_ids: &Vec<u64>,
        subtitle_ids: &Vec<u64>,
        semantic_id: Option<u64>,
    )
        requires
            old(self)@.timeline.lane_count() <= usize::MAX,
        ensures
            final(self)@ == old(self)@.listed_deleted(clip_ids@, subtitle_ids@, semantic_id),
    {
        reveal(StateView::listed_deleted);
        self.save_for_undo();
        self.timeline.delete_items(clip_ids, subtitle_ids, semantic_id);
        self.selection.clear();
    }
}

// ---------------------------------------------------------------------------
// Tracks
// ---------------------------------------------------------------------------

/// Whether the row has a clip with the id.
pub open spec fn lane_has(lane: Lane, id: u64) -> bool {
    exists|i: int| 0 <= i < lane.len() && (#[trigger] lane[i]).id == id
}

/// Whether the subtitles have one with the id.
pub open spec fn subtitles_have(clips: Seq<SubtitleClipView>, id: u64) -> bool {
    exists|i: int| 0 <= i < clips.len() && (#[trigger] clips[i]).id == id
}

impl SelectionView {
    /// The selection after a row of clips went. Where no single clip is selected, the
    /// last of the selected ones is.
    #[verifier::opaque]
    pub open spec fn without_lane(self, lane: Lane) -> SelectionView {
        let ids = self.selected_clip_ids.filter(|id: u64| !lane_has(lane, id));
        let one = match self.selected_clip_id {
            Some(id) => if lane_has(lane, id) {
                None
            } else {
                Some(id)
            },
            None => None,
        };
        SelectionView {
            selected_clip_ids: ids,
            selected_clip_id: match one {
                Some(id) => Some(id),
                None => last_id(ids),
            },
            ..self
        }
    }

    /// The selection after a row of subtitles went.
    #[verifier::opaque]
    pub open spec fn without_subtitles(self, clips: Seq<SubtitleClipView>) -> SelectionView {
        let ids = self.selected_subtitle_ids.filter(|id: u64| !subtitles_have(clips, id));
        let one = match self.selected_subtitle_id {
            Some(id) => if subtitles_have(clips, id) {
                None
            } else {
                Some(id)
            },
            None => None,
        };
        SelectionView {
            selected_subtitle_ids: ids,
            selected_subtitle_id: match one {
                Some(id) => Some(id),
                None => last_id(ids),
            },
            ..self
        }
    }
}

fn clips_have(clips: &Vec<Clip>, id: u64) -> (yes: bool)
    ensures
        yes == lane_has(views(clips@), id),
{
    let mut i: usize = 0;
    while i < clips.len()
        invariant
            i <= clips.len(),
            forall|j: int| 0 <= j < i ==> (#[trigger] views(clips@)[j]).id != id,
        decreases clips.len() - i,
    {
        assert(views(clips@)[i as int] == clips@[i as int]@);
        if clips[i].id == id {
            return true;
        }
        i = i + 1;
    }
    false
}

fn subtitle_clips_have(clips: &Vec<SubtitleClip>, id: u64) -> (yes: bool)
    ensures
        yes == subtitles_have(views(clips@), id),
{
    let mut i: usize = 0;
    while i < clips.len()
        invariant
            i <= clips.len(),
            forall|j: int| 0 <= j < i ==> (#[trigger] views(clips@)[j]).id != id,
        decreases clips.len() - i,
    {
        assert(views(clips@)[i as int] == clips@[i as int]@);
        if clips[i].id == id {
            return true;
        }
        i = i + 1;
    }
    false
}

impl Selection {
    fn forget_lane(&mut self, lane: &Vec<Clip>)
        ensures
            final(self)@ == old(self)@.without_lane(views(lane@)),
    {
        reveal(SelectionView::without_lane);
        let keep = |id: &u64| -> (yes: bool)
            ensures
                yes == !lane_has(views(lane@), *id),
        {
            !clips_have(lane, *id)
        };
        retain_by(
            &mut self.selected_clip_ids,
            keep,
            Ghost(|id: u64| !lane_has(views(lane@), id)),
        );
        if let Some(id) = self.selected_clip_id {
            if clips_have(lane, id) {
                self.selected_clip_id = None;
            }
        }
        if self.selected_clip_id.is_none() {
            self.selected_clip_id = last_of(&self.selected_clip_ids);
        }
    }

    fn forget_subtitles(&mut self, clips: &Vec<SubtitleClip>)
        ensures
            final(self)@ == old(self)@.without_subtitles(views(clips@)),
    {
        reveal(SelectionView::without_subtitles);
        let keep = |id: &u64| -> (yes: bool)
            ensures
                yes == !subtitles_have(views(clips@), *id),
        {
            !subtitle_clips_have(clips, *id)
        };
        retain_by(
            &mut self.selected_subtitle_ids,
            keep,
            Ghost(|id: u64| !subtitles_have(views(clips@), id)),
        );
        if let Some(id) = self.selected_subtitle_id {
            if subtitle_clips_have(clips, id) {
                self.selected_subtitle_id = None;
            }
        }
        if self.selected_subtitle_id.is_none() {
            self.selected_subtitle_id = last_of(&self.selected_subtitle_ids);
        }
    }
}

/// The layer effect after the video track `gone` went; one on it goes to the last of
/// the `left` tracks.
pub open spec fn layer_after_removal(
    layer: LayerEffectClipView,
    gone: int,
    left: int,
) -> LayerEffectClipView {
    LayerEffectClipView {
        track_index: if layer.track_index == gone {
            (left - 1) as usize
        } else if layer.track_index > gone {
            (layer.track_index - 1) as usize
        } else {
            layer.track_index
        },
        ..layer
    }
}

impl TimelineView {
    /// The timeline without a video track. Its layer effects go to the last track; with
    /// the last track they all go.
    #[verifier::opaque]
    pub open spec fn without_video_track(self, track: int) -> TimelineView {
        let tracks = self.video_tracks.remove(track);
        TimelineView {
            video_tracks: tracks,
            layer_effect_clips: if tracks.len() == 0 {
                Seq::empty()
            } else {
                self.layer_effect_clips.map_values(
                    |l: LayerEffectClipView| layer_after_removal(l, track, tracks.len() as int),
                )
            },
            selected_layer_effect_clip_id: if tracks.len() == 0 {
                None
            } else {
                self.selected_layer_effect_clip_id
            },
            ..self
        }
    }
}

impl Timeline {
    fn remove_video_track(&mut self, track_index: usize) -> (clips: Vec<Clip>)
        requires
            track_index < old(self)@.video_tracks.len(),
        ensures
            final(self)@ == old(self)@.without_video_track(track_index as int),
            views(clips@) == old(self)@.video_tracks[track_index as int].clips,
    {
        reveal(TimelineView::without_video_track);
        let ghost base = self@;
        let removed = self.video_tracks.remove(track_index);
        let left: usize = self.video_tracks.len();
        if left == 0 {
            self.layer_effect_clips.clear();
            self.selected_layer_effect_clip_id = None;
        } else {
            let ghost layers = base.layer_effect_clips;
            let mut i: usize = 0;
            while i < self.layer_effect_clips.len()
                invariant
                    i <= self.layer_effect_clips.len(),
                    self.layer_effect_clips.len() == layers.len(),
                    left > 0,
                    left == base.video_tracks.len() - 1,
                    track_index <= left,
                    self@ == (TimelineView {
                        video_tracks: base.video_tracks.remove(track_index as int),
                        layer_effect_clips: self@.layer_effect_clips,
                        ..base
                    }),
                    forall|j: int|
                        0 <= j < i ==> #[trigger] self@.layer_effect_clips[j]
                            == layer_after_removal(layers[j], track_index as int, left as int),
                    forall|j: int|
                        i <= j < layers.len() ==> #[trigger] self@.layer_effect_clips[j]
                            == layers[j],
                decreases self.layer_effect_clips.len() - i,
            {
                assert(self@.layer_effect_clips[i as int] == layers[i as int]);
                let index: usize = self.layer_effect_clips[i].track_index;
                let ghost before = self.layer_effect_clips@;
                if index == track_index {
                    self.layer_effect_clips[i].track_index = left - 1;
                    assert(self.layer_effect_clips@ =~= before.update(
                        i as int,
                        self.layer_effect_clips@[i as int],
                    ));
                } else if index > track_index {
                    self.layer_effect_clips[i].track_index = index - 1;
                    assert(self.layer_effect_clips@ =~= before.update(
                        i as int,
                        self.layer_effect_clips@[i as int],
                    ));
                }
                i = i + 1;
            }
            assert(self@.layer_effect_clips =~= base.without_video_track(
                track_index as int,
            ).layer_effect_clips);
        }
        removed.clips
    }
}

impl GlobalState {
    /// Deletes an audio track. Says whether there was one.
    pub fn delete_audio_track(&mut self, track_index: usize) -> (deleted: bool)
        ensures
            deleted == (track_index < old(self)@.timeline.audio_tracks.len()),
            deleted ==> ({
                let s = old(self)@.saved(false);
                final(self)@ == StateView {
                    timeline: TimelineView {
                        audio_tracks: s.timeline.audio_tracks.remove(track_index as int),
                        ..s.timeline
                    },
                    selection: s.selection.without_lane(
                        s.timeline.audio_tracks[track_index as int].clips,
                    ),
                    ..s
                }
            }),
            !deleted ==> final(self)@ == old(self)@,
    {
        if track_index >= self.timeline.audio_tracks.len() {
            return false;
        }
        self.save_for_undo();
        let removed = self.timeline.audio_tracks.remove(track_index);
        self.selection.forget_lane(&removed.clips);
        true
    }

    /// Deletes a video track above the main one. Says whether there was one.
    pub fn delete_video_track(&mut self, track_index: usize) -> (deleted: bool)
        ensures
            deleted == (track_index < old(self)@.timeline.video_tracks.len()),
            deleted ==> ({
                let s = old(self)@.saved(false);
                final(self)@ == StateView {
                    timeline: s.timeline.without_video_track(track_index as int),
                    selection: s.selection.without_lane(
                        s.timeline.video_tracks[track_index as int].clips,
                    ),
                    ..s
                }
            }),
            !deleted ==> final(self)@ == old(self)@,
    {
        if track_index >= self.timeline.video_tracks.len() {
            return false;
        }
        self.save_for_undo();
        let removed = self.timeline.remove_video_track(track_index);
        self.selection.forget_lane(&removed);
        true
    }

    /// Deletes a subtitle track. Says whether there was one.
    pub fn delete_subtitle_track(&mut self, track_index: usize) -> (deleted: bool)
        ensures
            deleted == (track_index < old(self)@.timeline.subtitle_tracks.len()),
            deleted ==> ({
                let s = old(self)@.saved(false);
                final(self)@ == StateView {
                    timeline: TimelineView {
                        subtitle_tracks: s.timeline.subtitle_tracks.remove(track_index as int),
                        ..s.timeline
                    },
                    selection: s.selection.without_subtitles(
                        s.timeline.subtitle_tracks[track_index as int].clips,
                    ),
                    ..s
                }
            }),
            !deleted ==> final(self)@ == old(self)@,
    {
        if track_index >= self.timeline.subtitle_tracks.len() {
            return false;
        }
        self.save_for_undo();
        let removed = self.timeline.subtitle_tracks.remove(track_index);
        self.selection.forget_subtitles(&removed.clips);
        true
    }
}

// ---------------------------------------------------------------------------
// Lengths
// ---------------------------------------------------------------------------

/// The shortest length that a clip can be given: a tenth of a second.
pub const SHORTEST_CLIP: u128 = 100_000_000;

/// The longest length that a picture can be given: a day.
pub const LONGEST_STILL: u128 = 86_400_000_000_000;

/// Whether a name in lower case ends as that of a picture does that can be shown for any time.
pub open spec fn lasting_ending(lower: Seq<char>) -> bool {
    ends_in(lower, ".jpg"@) || ends_in(lower, ".png"@) || ends_in(lower, ".webp"@) || ends_in(
        lower,
        ".bmp"@,
    )
}

/// Whether the file is a still picture that can be shown for any time.
pub open spec fn is_still(path: Seq<char>) -> bool {
    lasting_ending(unicode_lowercase(path))
}

/// Whether a name in lower case ends as that of a picture does that can be shown for any time.
pub fn has_lasting_ending(lower: &str) -> (yes: bool)
    ensures
        yes == lasting_ending(lower@),
{
    ends_with(lower, ".jpg") || ends_with(lower, ".png") || ends_with(lower, ".webp") || ends_with(
        lower,
        ".bmp",
    )
}

fn still(path: &String) -> (yes: bool)
    ensures
        yes == is_still(path@),
{
    let lower = to_lowercase(path.as_str());
    has_lasting_ending(lower.as_str())
}

/// The longest length that the clip can be given: what is left of its file.
pub open spec fn longest(c: ClipView) -> int {
    if is_still(c.file_path) {
        LONGEST_STILL as int
    } else {
        monus(c.media_duration, c.source_in)
    }
}

/// The clip with another length, as far as its file allows.
pub open spec fn resized(c: ClipView, duration: int) -> ClipView {
    ClipView { duration: clamped(duration, SHORTEST_CLIP as int, longest(c)), ..c }
}

impl TimelineView {
    /// The number of the row of a track.
    pub open spec fn lane_of(self, track: TrackType) -> int {
        match track {
            TrackType::V1 => 0,
            TrackType::Audio(k) => self.audio_lane(k as int),
            TrackType::VideoOverlay(k) => self.video_lane(k as int),
            TrackType::Subtitle(_) => self.lane_count() as int,
        }
    }

    /// The clip with the id on the track, if there is one.
    pub open spec fn clip_on(self, track: TrackType, clip_id: u64) -> Option<ClipView> {
        let i = self.lane_of(track);
        if i < self.lane_count() && place_of(self.lane(i), clip_id) < self.lane(i).len() {
            Some(self.lane(i)[place_of(self.lane(i), clip_id)])
        } else {
            None
        }
    }

    /// The timeline with the clip on the track given another length.
    #[verifier::opaque]
    pub open spec fn clip_resized(self, track: TrackType, clip_id: u64, duration: int) -> TimelineView {
        match self.clip_on(track, clip_id) {
            Some(c) => {
                let i = self.lane_of(track);
                self.with_lane(
                    i,
                    self.lane(i).update(place_of(self.lane(i), clip_id), resized(c, duration)),
                )
            },
            None => self,
        }
    }

    /// The timeline with the subtitle given another length.
    #[verifier::opaque]
    pub open spec fn subtitle_resized(self, track: int, clip_id: u64, duration: int) -> TimelineView {
        if track < self.subtitle_tracks.len() && subtitle_place(
            self.subtitle_tracks[track].clips,
            clip_id,
        ) < self.subtitle_tracks[track].clips.len() {
            let clips = self.subtitle_tracks[track].clips;
            let at = subtitle_place(clips, clip_id);
            self.with_subtitles(
                track,
                clips.update(
                    at,
                    SubtitleClipView {
                        duration: greatest(duration, SHORTEST_CLIP as int),
                        ..clips[at]
                    },
                ),
            )
        } else {
            self
        }
    }
}

impl Timeline {
    /// The number of the row of a track.
    pub(crate) fn lane_of(&self, track: TrackType) -> (i: usize)
        requires
            self@.lane_count() <= usize::MAX,
        ensures
            i == self@.lane_of(track),
    {
        match track {
            TrackType::V1 => 0,
            TrackType::Audio(k) => self.audio_lane(k),
            TrackType::VideoOverlay(k) => self.video_lane(k),
            TrackType::Subtitle(_) => self.lane_count(),
        }
    }

    fn can_resize(&self, track: TrackType, clip_id: u64) -> (yes: bool)
        requires
            self@.lane_count() <= usize::MAX,
        ensures
            yes == (self@.clip_on(track, clip_id) matches Some(c) ==> longest(c)
                >= SHORTEST_CLIP),
    {
        let i = self.lane_of(track);
        if i >= self.lane_count() {
            return true;
        }
        let lane = self.lane(i);
        let at = find_clip(lane, clip_id);
        at >= lane.len() || still(&lane[at].file_path) || lane[at].media_duration.saturating_sub(
            lane[at].source_in,
        ).nanos >= SHORTEST_CLIP
    }

    fn resize(&mut self, track: TrackType, clip_id: u64, duration: Duration)
        requires
            old(self)@.lane_count() <= usize::MAX,
            old(self)@.clip_on(track, clip_id) matches Some(c) ==> longest(c) >= SHORTEST_CLIP,
        ensures
            final(self)@ == old(self)@.clip_resized(track, clip_id, duration@),
    {
        reveal(TimelineView::clip_resized);
        let i = self.lane_of(track);
        if i >= self.lane_count() {
            return;
        }
        let at = find_clip(self.lane(i), clip_id);
        if at >= self.lane(i).len() {
            return;
        }
        let lane = self.lane_mut(i);
        let ghost before = lane@;
        let limit = if still(&lane[at].file_path) {
            Duration { nanos: LONGEST_STILL }
        } else {
            lane[at].media_duration.saturating_sub(lane[at].source_in)
        };
        let length = if duration.nanos < SHORTEST_CLIP {
            Duration { nanos: SHORTEST_CLIP }
        } else {
            duration.min(limit)
        };
        lane[at].duration = length;
        assert(lane@ =~= before.update(at as int, lane@[at as int]));
    }

    fn resize_subtitle(&mut self, track_index: usize, clip_id: u64, duration: Duration)
        ensures
            final(self)@ == old(self)@.subtitle_resized(track_index as int, clip_id, duration@),
    {
        reveal(TimelineView::subtitle_resized);
        if track_index >= self.subtitle_tracks.len() {
            return;
        }
        let at = find_subtitle(&self.subtitle_tracks[track_index].clips, clip_id);
        if at >= self.subtitle_tracks[track_index].clips.len() {
            return;
        }
        let ghost before = self.subtitle_tracks@;
        let ghost clips = self.subtitle_tracks@[track_index as int].clips@;
        let length = duration.max(Duration { nanos: SHORTEST_CLIP });
        self.subtitle_tracks[track_index].clips[at].duration = length;
        assert(self.subtitle_tracks@[track_index as int].clips@ =~= clips.update(
            at as int,
            self.subtitle_tracks@[track_index as int].clips@[at as int],
        ));
        assert(self.subtitle_tracks@ =~= before.update(
            track_index as int,
            self.subtitle_tracks@[track_index as int],
        ));
    }
}

impl GlobalState {
    /// Gives a clip another length, as far as its file allows.
    pub fn resize_clip(&mut self, track_type: TrackType, clip_id: u64, new_duration: Duration)
        requires
            old(self)@.timeline.lane_count() <= usize::MAX,
            old(self)@.timeline.clip_on(track_type, clip_id) matches Some(c) ==> longest(c)
                >= SHORTEST_CLIP,
        ensures
            final(self)@ == (StateView {
                timeline: old(self)@.timeline.clip_resized(track_type, clip_id, new_duration@),
                ..old(self)@
            }),
    {
        self.timeline.resize(track_type, clip_id, new_duration);
    }

    /// Gives a clip another length, as far as its file allows. Where what is left of the
    /// file is shorter than any clip may be, nothing changes and the answer is `false`.
    pub fn try_resize_clip(
        &mut self,
        track_type: TrackType,
        clip_id: u64,
        new_duration: Duration,
    ) -> (resized: bool)
        requires
            old(self)@.timeline.lane_count() <= usize::MAX,
        ensures
            resized == (old(self)@.timeline.clip_on(track_type, clip_id) matches Some(c)
                ==> longest(c) >= SHORTEST_CLIP),
            final(self)@ == if resized {
                StateView {
                    timeline: old(self)@.timeline.clip_resized(track_type, clip_id, new_duration@),
                    ..old(self)@
                }
            } else {
                old(self)@
            },
    {
        if !self.timeline.can_resize(track_type, clip_id) {
            return false;
        }
        self.resize_clip(track_type, clip_id, new_duration);
        true
    }

    /// Gives a subtitle another length.
    pub fn resize_subtitle_clip(
        &mut self,
        track_index: usize,
        clip_id: u64,
        new_duration: Duration,
    )
        ensures
            final(self)@ == (StateView {
                timeline: old(self)@.timeline.subtitle_resized(
                    track_index as int,
                    clip_id,
                    new_duration@,
                ),
                ..old(self)@
            }),
    {
        self.timeline.resize_subtitle(track_index, clip_id, new_duration);
    }
}

/// Clips that were to go are gone from a row, and the others stay.
pub proof fn deleted_clips_are_gone(lane: Lane, goes: spec_fn(u64) -> bool, i: int)
    requires
        0 <= i < lane.len(),
    ensures
        lane_without(lane, goes).contains(lane[i]) <==> !goes(lane[i].id),
        forall|k: int|
            0 <= k < lane_without(lane, goes).len() ==> !goes(
                (#[trigger] lane_without(lane, goes)[k]).id,
            ),
{
    broadcast use vstd::seq_lib::group_filter_ensures;

    let p = |c: ClipView| !goes(c.id);
    let left = lane.filter(p);
    assert forall|k: int| 0 <= k < left.len() implies !goes((#[trigger] left[k]).id) by {
        assert(p(left[k]));
    }
    if left.contains(lane[i]) {
        let k = choose|k: int| 0 <= k < left.len() && left[k] == lane[i];
        assert(!goes(left[k].id));
    }
    if !goes(lane[i].id) {
        assert(p(lane[i]));
    }
}

} // verus!
