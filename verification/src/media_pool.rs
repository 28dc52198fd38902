//! The media pool: the files that can be placed, and the one that is at hand.
use crate::clip::{by_start, sort_clips, Clip, ClipView};
use crate::copying::{optional, views, Duplicate};
use crate::errors::GlobalStateError;
use crate::export_clip::time_sum;
use crate::lanes::{lemma_lanes_put, lemma_lanes_put_back, Lane};
use crate::lists::{first, last_id, last_of, lemma_filter_views, lemma_first_is, retain_by};
use crate::media_paths::{is_image_media_path, is_supported_media_path, media_name, still_name};
use crate::modes::{ActiveTool, AppPage, V1MoveMode};
use crate::paths::{file_name, is_file_name};
use crate::placing::{make_clip, new_clip, next_number, take_id};
use crate::removal::{find_semantic, semantic_place};
use crate::scalar::Scalar;
use crate::state::{
    GlobalState, MediaPoolContextMenuState, MediaPoolContextMenuStateView, MediaPoolDragState,
    MediaPoolDragStateView, Selection, SelectionView, StateView,
};
use crate::text::{joined, joined3, owned, text_is};
use crate::time::{greatest, least, Duration, MAX_NANOS};
use crate::time_ranges::{
    apart, merge_time_ranges, merged_ranges, merging_keeps_coverage, remap_time_after_removed_ranges,
    remapped, TimeRange,
};
use crate::tracks::{
    MediaPoolItem, MediaPoolItemView, MediaPoolUndoState, MediaPoolUndoStateView, Timeline,
    TimelineView, VideoTrack, VideoTrackView,
};
use vstd::prelude::*;

verus! {

broadcast use crate::copying::group_views;

// ---------------------------------------------------------------------------
// The pool
// ---------------------------------------------------------------------------

/// Whether an entry is for the file.
pub open spec fn is_item(path: Seq<char>) -> spec_fn(MediaPoolItemView) -> bool {
    |i: MediaPoolItemView| i.path == path
}

/// The place of a file in the pool.
pub open spec fn item_place(pool: Seq<MediaPoolItemView>, path: Seq<char>) -> int {
    first(pool, is_item(path))
}

/// The place of a file in the pool, or the length.
pub fn find_item(pool: &Vec<MediaPoolItem>, path: &str) -> (at: usize)
    ensures
        at == item_place(views(pool@), path@),
        at <= pool.len(),
        at < pool.len() ==> pool@[at as int].path@ == path@,
{
    let ghost p = is_item(path@);
    let mut i: usize = 0;
    while i < pool.len()
        invariant
            i <= pool.len(),
            p == is_item(path@),
            forall|j: int| 0 <= j < i ==> !p(#[trigger] views(pool@)[j]),
        decreases pool.len() - i,
    {
        if text_is(pool[i].path.as_str(), path) {
            proof {
                assert(p(views(pool@)[i as int]));
                lemma_first_is(views(pool@), p, i as int);
            }
            return i;
        }
        assert(!p(views(pool@)[i as int]));
        i += 1;
    }
    proof {
        lemma_first_is(views(pool@), p, i as int);
    }
    i
}

impl MediaPoolUndoStateView {
    /// Whether the pool has the file.
    pub open spec fn has(self, path: Seq<char>) -> bool {
        item_place(self.media_pool, path) < self.media_pool.len()
    }

    /// The entry for the file.
    pub open spec fn item(self, path: Seq<char>) -> MediaPoolItemView {
        self.media_pool[item_place(self.media_pool, path)]
    }

    /// The pool with a file that can be used; one that it had gets the new length.
    pub open spec fn with_item(self, path: Seq<char>, name: Seq<char>, duration: int) -> Self {
        let at = item_place(self.media_pool, path);
        if !media_name(path) {
            self
        } else if self.has(path) {
            MediaPoolUndoStateView {
                media_pool: self.media_pool.update(
                    at,
                    MediaPoolItemView { duration, ..self.media_pool[at] },
                ),
                ..self
            }
        } else {
            MediaPoolUndoStateView {
                media_pool: self.media_pool.push(
                    MediaPoolItemView { path, name, duration, preview_jpeg_base64: None },
                ),
                ..self
            }
        }
    }

    /// The pool with another file at hand.
    pub open spec fn with_source(self, path: Seq<char>, name: Seq<char>, duration: int) -> Self {
        MediaPoolUndoStateView {
            active_source_path: path,
            active_source_name: name,
            active_source_duration: duration,
            ..self
        }
    }

    /// The pool without a file. Where it was at hand, the first of the others is then.
    pub open spec fn without(self, path: Seq<char>) -> Self {
        let rest = self.media_pool.filter(|i: MediaPoolItemView| i.path != path);
        let left = MediaPoolUndoStateView {
            media_pool: rest,
            pending_media_pool_path: if self.pending_media_pool_path == Some(path) {
                None
            } else {
                self.pending_media_pool_path
            },
            ..self
        };
        if self.active_source_path != path {
            left
        } else if rest.len() > 0 {
            left.with_source(rest[0].path, rest[0].name, rest[0].duration)
        } else {
            left.with_source(""@, "No Source Loaded"@, 0)
        }
    }

    /// The pool with another path for a file; its picture has to be made anew.
    pub open spec fn relocated(self, old_path: Seq<char>, new_path: Seq<char>, name: Seq<char>) -> Self {
        MediaPoolUndoStateView {
            media_pool: self.media_pool.map_values(
                |i: MediaPoolItemView| relocated_item(i, old_path, new_path, name),
            ),
            active_source_path: if self.active_source_path == old_path {
                new_path
            } else {
                self.active_source_path
            },
            ..self
        }
    }
}

/// An entry with another path, if it is for the file.
pub open spec fn relocated_item(
    i: MediaPoolItemView,
    old_path: Seq<char>,
    new_path: Seq<char>,
    name: Seq<char>,
) -> MediaPoolItemView {
    if i.path == old_path {
        MediaPoolItemView { path: new_path, name, preview_jpeg_base64: None, ..i }
    } else {
        i
    }
}

/// A file that can be used is in the pool after it was added, once more or not.
pub proof fn added_item_is_in_pool(
    m: MediaPoolUndoStateView,
    path: Seq<char>,
    name: Seq<char>,
    duration: int,
)
    requires
        media_name(path),
    ensures
        m.with_item(path, name, duration).has(path),
        m.with_item(path, name, duration).item(path).path == path,
        m.with_item(path, name, duration).item(path).duration == duration,
        m.has(path) ==> m.with_item(path, name, duration).media_pool.len() == m.media_pool.len(),
{
    let p = is_item(path);
    let after = m.with_item(path, name, duration).media_pool;
    let at = item_place(m.media_pool, path);
    crate::lists::lemma_first(m.media_pool, p);
    assert(p(after[at]));
    assert forall|i: int| 0 <= i < at implies !p(#[trigger] after[i]) by {
        assert(after[i] == m.media_pool[i]);
    }
    lemma_first_is(after, p, at);
}

/// A file that was removed is not in the pool.
pub proof fn removed_item_is_gone(m: MediaPoolUndoStateView, path: Seq<char>)
    ensures
        !m.without(path).has(path),
        m.without(path).pending_media_pool_path != Some(path),
{
    broadcast use vstd::seq_lib::group_filter_ensures;

    let p = |i: MediaPoolItemView| i.path != path;
    let rest = m.media_pool.filter(p);
    crate::lists::lemma_first(rest, is_item(path));
    let at = item_place(rest, path);
    if at < rest.len() {
        assert(p(rest[at]));
    }
}

impl MediaPoolUndoState {
    fn add(&mut self, path: &str, name: &str, duration: Duration)
        ensures
            final(self)@ == old(self)@.with_item(path@, name@, duration@),
    {
        if !is_supported_media_path(path) {
            return;
        }
        let ghost before = self.media_pool@;
        let at = find_item(&self.media_pool, path);
        if at < self.media_pool.len() {
            self.media_pool[at].duration = duration;
            assert(self.media_pool@ =~= before.update(at as int, self.media_pool@[at as int]));
            return;
        }
        self.media_pool.push(
            MediaPoolItem {
                path: owned(path),
                name: owned(name),
                duration,
                preview_jpeg_base64: None,
            },
        );
        assert(views(self.media_pool@) =~= views(before).push(
            self.media_pool@[before.len() as int]@,
        ));
    }

    fn set_source(&mut self, path: String, name: String, duration: Duration)
        ensures
            final(self)@ == old(self)@.with_source(path@, name@, duration@),
    {
        self.active_source_path = path;
        self.active_source_name = name;
        self.active_source_duration = duration;
    }

    fn remove(&mut self, path: &str)
        ensures
            final(self)@ == old(self)@.without(path@),
    {
        let ghost before = self.media_pool@;
        let ghost p = |i: MediaPoolItem| i.path@ != path@;
        let keep = |i: &MediaPoolItem| -> (yes: bool)
            ensures
                yes == (i.path@ != path@),
        {
            !text_is(i.path.as_str(), path)
        };
        retain_by(&mut self.media_pool, keep, Ghost(p));
        proof {
            lemma_filter_views(before, p, |i: MediaPoolItemView| i.path != path@);
        }
        let pending = match &self.pending_media_pool_path {
            Some(pending) => text_is(pending.as_str(), path),
            None => false,
        };
        if pending {
            self.pending_media_pool_path = None;
        }
        if text_is(self.active_source_path.as_str(), path) {
            if self.media_pool.len() > 0 {
                let next = self.media_pool[0].duplicate();
                self.set_source(next.path, next.name, next.duration);
            } else {
                self.set_source(owned(""), owned("No Source Loaded"), Duration::zero());
            }
        }
    }

    fn relocate(&mut self, old_path: &str, new_path: &str, name: &str)
        ensures
            final(self)@ == old(self)@.relocated(old_path@, new_path@, name@),
    {
        let ghost before = self@;
        let ghost pool = self.media_pool@;
        let n: usize = self.media_pool.len();
        let mut i: usize = 0;
        while i < n
            invariant
                i <= n,
                n == pool.len(),
                self.media_pool.len() == n,
                self@ == (MediaPoolUndoStateView { media_pool: self@.media_pool, ..before }),
                forall|k: int|
                    0 <= k < i ==> (#[trigger] self.media_pool@[k])@ == relocated_item(
                        pool[k]@,
                        old_path@,
                        new_path@,
                        name@,
                    ),
                forall|k: int| i <= k < n ==> (#[trigger] self.media_pool@[k])@ == pool[k]@,
            decreases n - i,
        {
            if text_is(self.media_pool[i].path.as_str(), old_path) {
                let item = MediaPoolItem {
                    path: owned(new_path),
                    name: owned(name),
                    duration: self.media_pool[i].duration,
                    preview_jpeg_base64: None,
                };
                self.media_pool.set(i, item);
            }
            i += 1;
        }
        assert(views(self.media_pool@) =~= before.media_pool.map_values(
            |i: MediaPoolItemView| relocated_item(i, old_path@, new_path@, name@),
        ));
        if text_is(self.active_source_path.as_str(), old_path) {
            self.active_source_path = owned(new_path);
        }
    }
}

// ---------------------------------------------------------------------------
// The rows
// ---------------------------------------------------------------------------

/// The row without the clips of a file.
pub open spec fn lane_without_file(lane: Lane, path: Seq<char>) -> Lane {
    lane.filter(|c: ClipView| c.file_path != path)
}

/// The row with another path for a file.
pub open spec fn lane_relocated(lane: Lane, old_path: Seq<char>, new_path: Seq<char>) -> Lane {
    lane.map_values(
        |c: ClipView|
            if c.file_path == old_path {
                ClipView { file_path: new_path, ..c }
            } else {
                c
            },
    )
}

/// The row after stretches of time were taken out.
pub open spec fn lane_closed(lane: Lane, ranges: Seq<TimeRange>) -> Lane {
    by_start(
        lane.map_values(|c: ClipView| ClipView { start: remapped(c.start, ranges), ..c }),
    )
}

/// When the clips of a file are shown.
pub open spec fn file_ranges(lane: Lane, path: Seq<char>) -> Seq<TimeRange>
    decreases lane.len(),
{
    if lane.len() == 0 {
        seq![]
    } else {
        let front = file_ranges(lane.drop_last(), path);
        let c = lane.last();
        if c.file_path == path {
            front.push(
                TimeRange {
                    start: Duration { nanos: c.start as u128 },
                    end: Duration { nanos: time_sum(c.start, c.duration) as u128 },
                },
            )
        } else {
            front
        }
    }
}

fn find_file_ranges(lane: &Vec<Clip>, path: &str) -> (ranges: Vec<TimeRange>)
    ensures
        ranges@ == file_ranges(views(lane@), path@),
{
    let ghost all = views(lane@);
    let mut ranges: Vec<TimeRange> = Vec::new();
    let mut i: usize = 0;
    assert(all.take(0) =~= seq![]);
    while i < lane.len()
        invariant
            i <= lane.len(),
            all == views(lane@),
            ranges@ == file_ranges(all.take(i as int), path@),
        decreases lane.len() - i,
    {
        assert(all.take(i + 1).drop_last() =~= all.take(i as int));
        assert(all.take(i + 1).last() == lane@[i as int]@);
        let c = &lane[i];
        if text_is(c.file_path.as_str(), path) {
            let end = c.start.saturating_add(c.duration);
            ranges.push(TimeRange { start: c.start, end });
        }
        i += 1;
    }
    assert(all.take(i as int) =~= all);
    ranges
}

fn drop_file(lane: &mut Vec<Clip>, path: &str)
    ensures
        views(final(lane)@) == lane_without_file(views(old(lane)@), path@),
{
    let ghost before = lane@;
    let ghost p = |c: Clip| c.file_path@ != path@;
    let keep = |c: &Clip| -> (yes: bool)
        ensures
            yes == (c.file_path@ != path@),
    {
        !text_is(c.file_path.as_str(), path)
    };
    retain_by(lane, keep, Ghost(p));
    proof {
        lemma_filter_views(before, p, |c: ClipView| c.file_path != path@);
    }
}

fn relocate_lane(lane: &mut Vec<Clip>, old_path: &str, new_path: &str)
    ensures
        views(final(lane)@) == lane_relocated(views(old(lane)@), old_path@, new_path@),
{
    let ghost before = lane@;
    let n: usize = lane.len();
    let mut i: usize = 0;
    while i < n
        invariant
            i <= n,
            n == before.len(),
            lane.len() == n,
            forall|k: int|
                0 <= k < i ==> (#[trigger] lane@[k])@ == if before[k]@.file_path == old_path@ {
                    ClipView { file_path: new_path@, ..before[k]@ }
                } else {
                    before[k]@
                },
            forall|k: int| i <= k < n ==> #[trigger] lane@[k] == before[k],
        decreases n - i,
    {
        if text_is(lane[i].file_path.as_str(), old_path) {
            let ghost now = lane@;
            lane[i].file_path = owned(new_path);
            assert(lane@ =~= now.update(i as int, lane@[i as int]));
        }
        i += 1;
    }
    assert(views(lane@) =~= lane_relocated(views(before), old_path@, new_path@));
}

fn close_lane(lane: &mut Vec<Clip>, ranges: &Vec<TimeRange>)
    requires
        apart(ranges@),
    ensures
        views(final(lane)@) == lane_closed(views(old(lane)@), ranges@),
{
    let ghost before = lane@;
    let n: usize = lane.len();
    let mut i: usize = 0;
    while i < n
        invariant
            i <= n,
            n == before.len(),
            lane.len() == n,
            apart(ranges@),
            forall|k: int|
                0 <= k < i ==> (#[trigger] lane@[k])@ == (ClipView {
                    start: remapped(before[k]@.start, ranges@),
                    ..before[k]@
                }),
            forall|k: int| i <= k < n ==> #[trigger] lane@[k] == before[k],
        decreases n - i,
    {
        let start = remap_time_after_removed_ranges(lane[i].start, ranges);
        let ghost now = lane@;
        lane[i].start = start;
        assert(lane@ =~= now.update(i as int, lane@[i as int]));
        i += 1;
    }
    assert(views(lane@) =~= views(before).map_values(
        |c: ClipView| ClipView { start: remapped(c.start, ranges@), ..c },
    ));
    sort_clips(lane);
}

impl TimelineView {
    /// Whether a clip is of the file.
    pub open spec fn uses_file(self, path: Seq<char>) -> bool {
        exists|i: int, k: int|
            0 <= i < self.lane_count() && 0 <= k < self.lane(i).len() && (#[trigger] self.lane(
                i,
            )[k]).file_path == path
    }

    /// The timeline with its rows changed one by one.
    pub open spec fn each_lane(self, f: spec_fn(Lane) -> Lane) -> TimelineView {
        self.with_lanes(self.lanes().map_values(f))
    }

    /// The timeline without the clips of a file. If asked, the time at which the main track
    /// showed them is taken out.
    #[verifier::opaque]
    pub open spec fn without_file(self, path: Seq<char>, magnetic: bool) -> TimelineView {
        let ranges = merged_ranges(file_ranges(self.v1_clips, path));
        let left = self.each_lane(|lane: Lane| lane_without_file(lane, path));
        if magnetic && ranges.len() > 0 {
            TimelineView {
                playhead: remapped(left.playhead, ranges),
                ..left.each_lane(|lane: Lane| lane_closed(lane, ranges))
            }
        } else {
            left
        }
    }
}

impl Timeline {
    fn has_file(&self, path: &str) -> (yes: bool)
        requires
            self@.lane_count() <= usize::MAX,
        ensures
            yes == self@.uses_file(path@),
    {
        let n: usize = self.lane_count();
        let mut i: usize = 0;
        while i < n
            invariant
                i <= n,
                n == self@.lane_count(),
                forall|a: int, b: int|
                    0 <= a < i && 0 <= b < self@.lane(a).len() ==> (#[trigger] self@.lane(
                        a,
                    )[b]).file_path != path@,
            decreases n - i,
        {
            let lane = self.lane(i);
            let mut k: usize = 0;
            while k < lane.len()
                invariant
                    k <= lane.len(),
                    i < self@.lane_count(),
                    views(lane@) == self@.lane(i as int),
                    forall|b: int|
                        0 <= b < k ==> (#[trigger] self@.lane(i as int)[b]).file_path != path@,
                decreases lane.len() - k,
            {
                if text_is(lane[k].file_path.as_str(), path) {
                    assert(self@.lane(i as int)[k as int].file_path == path@);
                    return true;
                }
                k += 1;
            }
            i += 1;
        }
        false
    }

    fn drop_file_everywhere(&mut self, path: &str)
        requires
            old(self)@.lane_count() <= usize::MAX,
        ensures
            final(self)@ == old(self)@.each_lane(|lane: Lane| lane_without_file(lane, path@)),
    {
        let ghost base = self@;
        let ghost f = |lane: Lane| lane_without_file(lane, path@);
        let ghost mut now = base.lanes();
        let n: usize = self.lane_count();
        let mut i: usize = 0;
        proof {
            lemma_lanes_put_back(base);
        }
        while i < n
            invariant
                i <= n,
                n == base.lane_count(),
                now.len() == n,
                f == (|lane: Lane| lane_without_file(lane, path@)),
                self@ == base.with_lanes(now),
                forall|k: int| 0 <= k < i ==> #[trigger] now[k] == f(base.lanes()[k]),
                forall|k: int| i <= k < n ==> #[trigger] now[k] == base.lanes()[k],
            decreases n - i,
        {
            proof {
                lemma_lanes_put(base, now);
            }
            let lane = self.lane_mut(i);
            drop_file(lane, path);
            proof {
                now = now.update(i as int, f(base.lanes()[i as int]));
            }
            i += 1;
        }
        assert(now =~= base.lanes().map_values(f));
    }

    fn relocate_everywhere(&mut self, old_path: &str, new_path: &str)
        requires
            old(self)@.lane_count() <= usize::MAX,
        ensures
            final(self)@ == old(self)@.each_lane(
                |lane: Lane| lane_relocated(lane, old_path@, new_path@),
            ),
    {
        let ghost base = self@;
        let ghost f = |lane: Lane| lane_relocated(lane, old_path@, new_path@);
        let ghost mut now = base.lanes();
        let n: usize = self.lane_count();
        let mut i: usize = 0;
        proof {
            lemma_lanes_put_back(base);
        }
        while i < n
            invariant
                i <= n,
                n == base.lane_count(),
                now.len() == n,
                f == (|lane: Lane| lane_relocated(lane, old_path@, new_path@)),
                self@ == base.with_lanes(now),
                forall|k: int| 0 <= k < i ==> #[trigger] now[k] == f(base.lanes()[k]),
                forall|k: int| i <= k < n ==> #[trigger] now[k] == base.lanes()[k],
            decreases n - i,
        {
            proof {
                lemma_lanes_put(base, now);
            }
            let lane = self.lane_mut(i);
            relocate_lane(lane, old_path, new_path);
            proof {
                now = now.update(i as int, f(base.lanes()[i as int]));
            }
            i += 1;
        }
        assert(now =~= base.lanes().map_values(f));
    }

    /// Takes stretches of time out of the rows of clips.
    fn apply_time_removal_to_av_tracks(&mut self, ranges: &Vec<TimeRange>)
        requires
            old(self)@.lane_count() <= usize::MAX,
            apart(ranges@),
        ensures
            final(self)@ == (TimelineView {
                playhead: remapped(old(self)@.playhead, ranges@),
                ..old(self)@.each_lane(|lane: Lane| lane_closed(lane, ranges@))
            }),
    {
        let ghost base = self@;
        let ghost f = |lane: Lane| lane_closed(lane, ranges@);
        let ghost mut now = base.lanes();
        let n: usize = self.lane_count();
        let mut i: usize = 0;
        proof {
            lemma_lanes_put_back(base);
        }
        while i < n
            invariant
                i <= n,
                n == base.lane_count(),
                now.len() == n,
                apart(ranges@),
                f == (|lane: Lane| lane_closed(lane, ranges@)),
                self@ == base.with_lanes(now),
                forall|k: int| 0 <= k < i ==> #[trigger] now[k] == f(base.lanes()[k]),
                forall|k: int| i <= k < n ==> #[trigger] now[k] == base.lanes()[k],
            decreases n - i,
        {
            proof {
                lemma_lanes_put(base, now);
            }
            let lane = self.lane_mut(i);
            close_lane(lane, ranges);
            proof {
                now = now.update(i as int, f(base.lanes()[i as int]));
            }
            i += 1;
        }
        assert(now =~= base.lanes().map_values(f));
        self.playhead = remap_time_after_removed_ranges(self.playhead, ranges);
    }

    fn remove_file(&mut self, path: &str, magnetic: bool)
        requires
            old(self)@.lane_count() <= usize::MAX,
        ensures
            final(self)@ == old(self)@.without_file(path@, magnetic),
            final(self)@.lane_count() == old(self)@.lane_count(),
    {
        reveal(TimelineView::without_file);
        let ghost base = self@;
        let ranges = merge_time_ranges(find_file_ranges(&self.v1_clips, path));
        proof {
            merging_keeps_coverage(file_ranges(base.v1_clips, path@), 0);
        }
        self.drop_file_everywhere(path);
        if magnetic && ranges.len() > 0 {
            self.apply_time_removal_to_av_tracks(&ranges);
        }
    }
}

impl SelectionView {
    /// The selection without clips that are not on the timeline.
    #[verifier::opaque]
    pub open spec fn clips_pruned(self, t: TimelineView) -> SelectionView {
        let clips = self.selected_clip_ids.filter(|id: u64| t.has_clip(id));
        SelectionView {
            selected_clip_ids: clips,
            selected_clip_id: if self.selected_clip_id is Some && !t.has_clip(
                self.selected_clip_id->0,
            ) {
                last_id(clips)
            } else {
                self.selected_clip_id
            },
            ..self
        }
    }
}

impl Selection {
    fn prune_clips(&mut self, t: &Timeline)
        requires
            t@.lane_count() <= usize::MAX,
        ensures
            final(self)@ == old(self)@.clips_pruned(t@),
    {
        reveal(SelectionView::clips_pruned);
        let keep = |id: &u64| -> (yes: bool)
            ensures
                yes == t@.has_clip(*id),
        {
            t.has_clip(*id)
        };
        retain_by(&mut self.selected_clip_ids, keep, Ghost(|id: u64| t@.has_clip(id)));
        if let Some(id) = self.selected_clip_id {
            if !t.has_clip(id) {
                self.selected_clip_id = last_of(&self.selected_clip_ids);
            }
        }
    }
}

/// What is left of a selection of clips is on the timeline.
pub proof fn pruned_clips_exist(s: SelectionView, t: TimelineView, id: u64)
    ensures
        s.clips_pruned(t).selected_clip_ids.contains(id) ==> t.has_clip(id),
        s.clips_pruned(t).selected_clip_id == Some(id) ==> t.has_clip(id),
{
    broadcast use vstd::seq_lib::group_filter_ensures;

    reveal(SelectionView::clips_pruned);
    let p = |id: u64| t.has_clip(id);
    let kept = s.selected_clip_ids.filter(p);
    if kept.contains(id) {
        let i = choose|i: int| 0 <= i < kept.len() && kept[i] == id;
        assert(p(kept[i]));
    }
    if kept.len() > 0 {
        assert(p(kept[kept.len() - 1]));
    }
}

// ---------------------------------------------------------------------------
// The state
// ---------------------------------------------------------------------------

/// The name of a file; a word where there is none.
pub open spec fn name_or(name: Option<Seq<char>>, usual: Seq<char>) -> Seq<char> {
    match name {
        Some(n) => n,
        None => usual,
    }
}

fn choose_name(name: &Option<String>, usual: &str) -> (n: String)
    ensures
        n@ == name_or(optional(*name), usual@),
{
    match name {
        Some(n) => owned(n.as_str()),
        None => owned(usual),
    }
}

impl StateView {
    /// The state without a file, and without its clips.
    #[verifier::opaque]
    pub open spec fn without_media(self, path: Seq<char>) -> StateView {
        let s = self.saved(true);
        let used = s.timeline.uses_file(path);
        let left = s.timeline.without_file(path, s.v1_move_mode is Magnetic);
        StateView {
            media: s.media.without(path),
            timeline: if used {
                left
            } else {
                s.timeline
            },
            selection: if used {
                s.selection.clips_pruned(left)
            } else {
                s.selection
            },
            media_pool_drag: match s.media_pool_drag {
                Some(d) => if d.path == path {
                    None
                } else {
                    Some(d)
                },
                None => None,
            },
            media_pool_context_menu: match s.media_pool_context_menu {
                Some(m) => if m.path == path {
                    None
                } else {
                    Some(m)
                },
                None => None,
            },
            ..s
        }
    }
}

impl StateView {
    /// The state with a file in the pool, if it can be used.
    pub open spec fn with_pool_item(
        self,
        path: Seq<char>,
        name: Option<Seq<char>>,
        duration: int,
    ) -> StateView {
        StateView {
            media: self.media.with_item(path, name_or(name, "Unknown"@), duration),
            ..self
        }
    }

    /// The state with a file in the pool and at hand.
    pub open spec fn with_loaded(
        self,
        path: Seq<char>,
        name: Option<Seq<char>>,
        duration: int,
    ) -> StateView {
        let shown = name_or(name, "Unknown"@);
        StateView {
            media: self.media.with_item(path, shown, duration).with_source(path, shown, duration),
            ..self
        }
    }

    /// The state with another path for a file, in the pool and in all clips.
    pub open spec fn with_relocated(
        self,
        old_path: Seq<char>,
        new_path: Seq<char>,
        name: Option<Seq<char>>,
    ) -> StateView {
        StateView {
            media: self.media.relocated(old_path, new_path, name_or(name, new_path)),
            timeline: self.timeline.each_lane(
                |lane: Lane| lane_relocated(lane, old_path, new_path),
            ),
            ..self
        }
    }
}

impl GlobalState {
    /// Adds a file to the pool, if it can be used; its name is given if it has one.
    pub fn add_named_media_pool_item(
        &mut self,
        path: &str,
        name: &Option<String>,
        duration: Duration,
    )
        ensures
            final(self)@ == old(self)@.with_pool_item(path@, optional(*name), duration@),
    {
        let shown = choose_name(name, "Unknown");
        self.media.add(path, shown.as_str(), duration);
    }

    /// Adds a file to the pool, if it can be used, under the last name in its path.
    pub fn add_media_pool_item(&mut self, path: &str, duration: Duration)
        ensures
            exists|name: Option<Seq<char>>| #[trigger]
                is_file_name(path@, name) && final(self)@ == old(self)@.with_pool_item(
                    path@,
                    name,
                    duration@,
                ),
    {
        let name = file_name(path);
        self.add_named_media_pool_item(path, &name, duration);
    }

    /// Adds a file to the pool and takes it at hand; its name is given if it has one.
    pub fn load_named_source_video(
        &mut self,
        path: &str,
        name: &Option<String>,
        duration: Duration,
    )
        ensures
            final(self)@ == old(self)@.with_loaded(path@, optional(*name), duration@),
    {
        self.add_named_media_pool_item(path, name, duration);
        self.media.set_source(owned(path), choose_name(name, "Unknown"), duration);
    }

    /// Adds a file to the pool and takes it at hand, under the last name in its path.
    pub fn load_source_video(&mut self, path: &str, duration: Duration)
        ensures
            exists|name: Option<Seq<char>>| #[trigger]
                is_file_name(path@, name) && final(self)@ == old(self)@.with_loaded(
                    path@,
                    name,
                    duration@,
                ),
    {
        let name = file_name(path);
        self.load_named_source_video(path, &name, duration);
    }

    fn drop_media_of_timeline(&mut self, path: &str)
        requires
            old(self)@.timeline.lane_count() <= usize::MAX,
        ensures
            ({
                let s = old(self)@;
                let used = s.timeline.uses_file(path@);
                let left = s.timeline.without_file(path@, s.v1_move_mode is Magnetic);
                final(self)@ == (StateView {
                    timeline: if used {
                        left
                    } else {
                        s.timeline
                    },
                    selection: if used {
                        s.selection.clips_pruned(left)
                    } else {
                        s.selection
                    },
                    ..s
                })
            }),
    {
        if self.timeline.has_file(path) {
            let magnetic = matches!(self.v1_move_mode, V1MoveMode::Magnetic);
            self.timeline.remove_file(path, magnetic);
            self.selection.prune_clips(&self.timeline);
        }
    }

    fn drop_drag_of(&mut self, path: &str)
        ensures
            final(self)@ == (StateView {
                media_pool_drag: match old(self)@.media_pool_drag {
                    Some(d) => if d.path == path@ {
                        None
                    } else {
                        Some(d)
                    },
                    None => None,
                },
                ..old(self)@
            }),
    {
        let same = match &self.media_pool_drag {
            Some(d) => text_is(d.path.as_str(), path),
            None => false,
        };
        if same {
            self.media_pool_drag = None;
        }
    }

    fn drop_menu_of(&mut self, path: &str)
        ensures
            final(self)@ == (StateView {
                media_pool_context_menu: match old(self)@.media_pool_context_menu {
                    Some(m) => if m.path == path@ {
                        None
                    } else {
                        Some(m)
                    },
                    None => None,
                },
                ..old(self)@
            }),
    {
        let same = match &self.media_pool_context_menu {
            Some(m) => text_is(m.path.as_str(), path),
            None => false,
        };
        if same {
            self.media_pool_context_menu = None;
        }
    }

    /// Removes a file from the pool, and its clips from the timeline. Says whether the pool
    /// had it.
    pub fn remove_media_pool_item(&mut self, path: &str) -> (removed: bool)
        requires
            old(self)@.timeline.lane_count() <= usize::MAX,
        ensures
            removed == old(self)@.media.has(path@),
            final(self)@ == if removed {
                old(self)@.without_media(path@)
            } else {
                old(self)@
            },
    {
        reveal(StateView::without_media);
        if find_item(&self.media.media_pool, path) >= self.media.media_pool.len() {
            return false;
        }
        self.save_for_undo_with_media_pool();
        self.media.remove(path);
        self.drop_media_of_timeline(path);
        self.drop_drag_of(path);
        self.drop_menu_of(path);
        true
    }

    /// Opens the menu of a file of the pool. Says whether the pool has it.
    pub fn open_media_pool_context_menu(&mut self, path: String, x: Scalar, y: Scalar) -> (open:
        bool)
        ensures
            open == old(self)@.media.has(path@),
            final(self)@ == (StateView {
                media_pool_context_menu: if open {
                    Some(MediaPoolContextMenuStateView { path: path@, x, y })
                } else {
                    None
                },
                ..old(self)@
            }),
    {
        let has = find_item(&self.media.media_pool, path.as_str()) < self.media.media_pool.len();
        if has {
            self.media_pool_context_menu = Some(MediaPoolContextMenuState { path, x, y });
        } else {
            self.media_pool_context_menu = None;
        }
        has
    }

    /// Closes the menu.
    pub fn close_media_pool_context_menu(&mut self)
        ensures
            final(self)@ == (StateView { media_pool_context_menu: None, ..old(self)@ }),
    {
        self.media_pool_context_menu = None;
    }

    /// Gives a file another path, in the pool and in all clips; its new name is given if it
    /// has one.
    pub fn relocate_named_media_path(
        &mut self,
        old_path: &str,
        new_path: &str,
        new_name: &Option<String>,
    )
        requires
            old(self)@.timeline.lane_count() <= usize::MAX,
        ensures
            final(self)@ == old(self)@.with_relocated(old_path@, new_path@, optional(*new_name)),
    {
        let name = choose_name(new_name, new_path);
        self.media.relocate(old_path, new_path, name.as_str());
        self.timeline.relocate_everywhere(old_path, new_path);
    }

    /// Gives a file another path, in the pool and in all clips. In the pool it goes under the last
    /// name in that path.
    pub fn relocate_media_path(&mut self, old_path: &str, new_path: &str)
        requires
            old(self)@.timeline.lane_count() <= usize::MAX,
        ensures
            exists|name: Option<Seq<char>>| #[trigger]
                is_file_name(new_path@, name) && final(self)@ == old(self)@.with_relocated(
                    old_path@,
                    new_path@,
                    name,
                ),
    {
        let name = file_name(new_path);
        self.relocate_named_media_path(old_path, new_path, &name);
    }

    /// Takes a file of the pool at hand. Says whether the pool has it.
    pub fn activate_media_pool_item(&mut self, path: &str) -> (has: bool)
        ensures
            has == old(self)@.media.has(path@),
            final(self)@ == if has {
                let item = old(self)@.media.item(path@);
                StateView {
                    media: old(self)@.media.with_source(item.path, item.name, item.duration),
                    ..old(self)@
                }
            } else {
                old(self)@
            },
    {
        let at = find_item(&self.media.media_pool, path);
        if at >= self.media.media_pool.len() {
            return false;
        }
        let item = self.media.media_pool[at].duplicate();
        self.media.set_source(item.path, item.name, item.duration);
        true
    }

    /// Starts to drag a file of the pool. Says whether the pool has it.
    pub fn begin_media_pool_drag(&mut self, path: String) -> (has: bool)
        ensures
            has == old(self)@.media.has(path@),
            final(self)@ == if has {
                let item = old(self)@.media.item(path@);
                StateView {
                    media: MediaPoolUndoStateView {
                        pending_media_pool_path: Some(item.path),
                        ..old(self)@.media
                    },
                    media_pool_drag: Some(
                        MediaPoolDragStateView {
                            path: item.path,
                            name: item.name,
                            cursor_x: Scalar { bits: 0 },
                            cursor_y: Scalar { bits: 0 },
                        },
                    ),
                    media_pool_context_menu: None,
                    ..old(self)@
                }
            } else {
                old(self)@
            },
    {
        let at = find_item(&self.media.media_pool, path.as_str());
        if at >= self.media.media_pool.len() {
            return false;
        }
        let item = self.media.media_pool[at].duplicate();
        self.media.pending_media_pool_path = Some(owned(item.path.as_str()));
        self.media_pool_drag =
        Some(
            MediaPoolDragState {
                path: item.path,
                name: item.name,
                cursor_x: Scalar { bits: 0 },
                cursor_y: Scalar { bits: 0 },
            },
        );
        self.media_pool_context_menu = None;
        true
    }

    /// Moves what is dragged.
    pub fn update_media_pool_drag_cursor(&mut self, x: Scalar, y: Scalar)
        ensures
            final(self)@ == (StateView {
                media_pool_drag: match old(self)@.media_pool_drag {
                    Some(d) => Some(MediaPoolDragStateView { cursor_x: x, cursor_y: y, ..d }),
                    None => None,
                },
                ..old(self)@
            }),
    {
        let mut drag: Option<MediaPoolDragState> = None;
        std::mem::swap(&mut drag, &mut self.media_pool_drag);
        if let Some(d) = drag {
            self.media_pool_drag =
            Some(MediaPoolDragState { path: d.path, name: d.name, cursor_x: x, cursor_y: y });
        }
    }

    /// Ends dragging.
    pub fn clear_media_pool_drag(&mut self)
        ensures
            final(self)@ == (StateView {
                media: MediaPoolUndoStateView {
                    pending_media_pool_path: None,
                    ..old(self)@.media
                },
                media_pool_drag: None,
                ..old(self)@
            }),
    {
        self.media.pending_media_pool_path = None;
        self.media_pool_drag = None;
    }

    /// Starts or stops playing.
    pub fn toggle_playing(&mut self)
        ensures
            final(self)@ == (StateView { is_playing: !old(self)@.is_playing, ..old(self)@ }),
    {
        self.is_playing = !self.is_playing;
    }

    /// Takes another tool.
    pub fn set_tool(&mut self, tool: ActiveTool)
        ensures
            final(self)@ == (StateView { active_tool: tool, ..old(self)@ }),
    {
        self.active_tool = tool;
    }

    /// Shows another page.
    pub fn set_active_page(&mut self, page: AppPage)
        ensures
            final(self)@ == (StateView { active_page: page, ..old(self)@ }),
    {
        self.active_page = page;
    }
}

// ---------------------------------------------------------------------------
// Generated media
// ---------------------------------------------------------------------------

/// A length of time in seconds, in decimal with two digits after the point.
pub uninterp spec fn seconds_in_two_digits(nanos: nat) -> Seq<char>;

/// `Duration::as_secs_f32`, written in decimal with two digits after the point. The text
/// depends on the length alone.
#[verifier::external_body]
fn write_two_digits(whole: u64, nanos: u32) -> (text: String)
    requires
        nanos < 1_000_000_000,
    ensures
        text@ == seconds_in_two_digits((whole * 1_000_000_000 + nanos) as nat),
{
    format!("{:.2}", std::time::Duration::new(whole, nanos).as_secs_f32())
}

/// The length with two digits. One past the longest counts as the longest.
pub open spec fn short_seconds(nanos: int) -> Seq<char> {
    seconds_in_two_digits(least(nanos, MAX_NANOS as int) as nat)
}

/// The length with two digits.
pub fn short_seconds_text(d: Duration) -> (text: String)
    ensures
        text@ == short_seconds(d@),
{
    let nanos: u128 = if d.nanos <= MAX_NANOS {
        d.nanos
    } else {
        MAX_NANOS
    };
    let whole: u64 = (nanos / 1_000_000_000) as u64;
    let part: u32 = (nanos % 1_000_000_000) as u32;
    assert(whole * 1_000_000_000 + part == nanos);
    write_two_digits(whole, part)
}

/// The shortest length of generated media.
pub const SHORTEST_MEDIA: u128 = 1_000_000;

/// How long generated media is shown for a marked stretch: a still picture as long as
/// the stretch, other media no longer than it is.
pub open spec fn generated_length(path: Seq<char>, stretch: int, media: int) -> int {
    let wanted = greatest(stretch, SHORTEST_MEDIA as int);
    if still_name(path) {
        wanted
    } else {
        greatest(least(wanted, greatest(media, SHORTEST_MEDIA as int)), SHORTEST_MEDIA as int)
    }
}

/// The clip for generated media.
pub open spec fn generated_clip(
    id: u64,
    path: Seq<char>,
    name: Seq<char>,
    start: int,
    stretch: int,
    media: int,
) -> ClipView {
    ClipView {
        media_duration: greatest(media, SHORTEST_MEDIA as int),
        ..new_clip(
            id,
            if still_name(path) {
                "(Image) "@ + name
            } else {
                "(Video) "@ + name
            },
            path,
            start,
            generated_length(path, stretch, media),
            None,
        )
    }
}

impl TimelineView {
    /// The timeline with a clip on the first video track above the main one, which is made
    /// if there is none.
    #[verifier::opaque]
    pub open spec fn with_generated(self, clip: ClipView) -> TimelineView {
        let tracks = if self.video_tracks.len() == 0 {
            seq![VideoTrackView { name: "V2"@, clips: seq![] }]
        } else {
            self.video_tracks
        };
        TimelineView {
            video_tracks: tracks.update(
                0,
                tracks[0].with_clips(by_start(tracks[0].clips.push(clip))),
            ),
            playhead: clip.start,
            selected_layer_effect_clip_id: None,
            ..self
        }
    }
}

impl Timeline {
    fn place_generated(&mut self, clip: Clip)
        ensures
            final(self)@ == old(self)@.with_generated(clip@),
    {
        reveal(TimelineView::with_generated);
        if self.video_tracks.len() == 0 {
            self.video_tracks.push(VideoTrack { name: owned("V2"), clips: Vec::new() });
            assert(self@.video_tracks =~= seq![VideoTrackView { name: "V2"@, clips: seq![] }]) by {
                assert(views(self.video_tracks@[0].clips@) =~= seq![]);
            }
        }
        self.playhead = clip.start;
        let ghost before = self.video_tracks@;
        let ghost clips = self.video_tracks@[0].clips@;
        self.video_tracks[0].clips.push(clip);
        assert(views(self.video_tracks@[0].clips@) =~= views(clips).push(clip@));
        sort_clips(&mut self.video_tracks[0].clips);
        assert(self.video_tracks@ =~= before.update(0, self.video_tracks@[0]));
        self.selected_layer_effect_clip_id = None;
    }
}

impl StateView {
    /// The state with generated media for a marked stretch.
    #[verifier::opaque]
    pub open spec fn with_generated_media(
        self,
        stretch: (int, int),
        path: Seq<char>,
        name: Option<Seq<char>>,
        media: int,
    ) -> StateView {
        let s = self.saved(true);
        let length = greatest(media, SHORTEST_MEDIA as int);
        let shown = name_or(name, "generated_asset"@);
        StateView {
            media: s.media.with_item(path, name_or(name, "Unknown"@), length).with_source(
                path,
                shown,
                length,
            ),
            timeline: s.timeline.with_generated(
                generated_clip(s.next_clip_id, path, shown, stretch.0, stretch.1, media),
            ),
            selection: SelectionView::nothing(),
            next_clip_id: next_number(s.next_clip_id),
            ui_notice: Some(
                "Generated media placed at semantic "@ + short_seconds(stretch.0)
                    + "s on V2 and added to Media Pool."@,
            ),
            ..s
        }
    }
}

impl StateView {
    /// Whether the second state and the answer are those after generated media was placed where a
    /// marked stretch is. It is refused where the stretch is gone or the file cannot be used, and
    /// then nothing changes.
    pub open spec fn takes_asset(
        self,
        after: StateView,
        placed: Result<(), GlobalStateError>,
        semantic_clip_id: u64,
        path: Seq<char>,
        name: Option<Seq<char>>,
        media: int,
    ) -> bool {
        let clips = self.timeline.semantic_clips;
        let at = semantic_place(clips, semantic_clip_id);
        if at >= clips.len() {
            placed == Err::<(), _>(GlobalStateError::TargetSemanticClipMissing) && after == self
        } else if !media_name(path) {
            placed == Err::<(), _>(GlobalStateError::UnsupportedGeneratedMediaPath) && after == self
        } else {
            placed == Ok::<(), GlobalStateError>(()) && after == self.with_generated_media(
                (clips[at].start, clips[at].duration),
                path,
                name,
                media,
            )
        }
    }
}

impl GlobalState {
    fn place_generated_media(
        &mut self,
        start: Duration,
        stretch: Duration,
        path: &str,
        name: &Option<String>,
        media: Duration,
    )
        ensures
            final(self)@ == old(self)@.with_generated_media(
                (start@, stretch@),
                path@,
                optional(*name),
                media@,
            ),
    {
        reveal(StateView::with_generated_media);
        let shortest = Duration { nanos: SHORTEST_MEDIA };
        let length = media.max(shortest);
        let wanted = stretch.max(shortest);
        let image = is_image_media_path(path);
        let shown = choose_name(name, "generated_asset");
        let label = if image {
            joined("(Image) ", shown.as_str())
        } else {
            joined("(Video) ", shown.as_str())
        };
        let shown_length = if image {
            wanted
        } else {
            wanted.min(length).max(shortest)
        };
        self.save_for_undo_with_media_pool();
        self.add_named_media_pool_item(path, name, length);
        self.media.set_source(owned(path), shown, length);
        let path_text = owned(path);
        let id = take_id(&mut self.next_clip_id);
        let mut clip = make_clip(id, label, &path_text, start, shown_length, None);
        clip.media_duration = length;
        self.timeline.place_generated(clip);
        self.selection.clear();
        self.ui_notice =
        Some(
            joined3(
                "Generated media placed at semantic ",
                short_seconds_text(start).as_str(),
                "s on V2 and added to Media Pool.",
            ),
        );
    }

    /// Places generated media where a marked stretch is, on the first video track above the
    /// main one, and adds it to the pool; its name is given if it has one.
    pub fn add_named_asset_to_semantic_timeline(
        &mut self,
        semantic_clip_id: u64,
        path: &str,
        name: &Option<String>,
        media_duration: Duration,
    ) -> (placed: Result<(), GlobalStateError>)
        ensures
            old(self)@.takes_asset(
                final(self)@,
                placed,
                semantic_clip_id,
                path@,
                optional(*name),
                media_duration@,
            ),
    {
        let at = find_semantic(&self.timeline.semantic_clips, semantic_clip_id);
        if at >= self.timeline.semantic_clips.len() {
            return Err(GlobalStateError::TargetSemanticClipMissing);
        }
        if !is_supported_media_path(path) {
            return Err(GlobalStateError::UnsupportedGeneratedMediaPath);
        }
        let start = self.timeline.semantic_clips[at].start;
        let stretch = self.timeline.semantic_clips[at].duration;
        self.place_generated_media(start, stretch, path, name, media_duration);
        Ok(())
    }

    /// Places generated media where a marked stretch is, on the first video track above the
    /// main one, and adds it to the pool, under the last name in its path.
    pub fn add_generated_asset_to_semantic_timeline(
        &mut self,
        semantic_clip_id: u64,
        path: &str,
        media_duration: Duration,
    ) -> (placed: Result<(), GlobalStateError>)
        ensures
            exists|name: Option<Seq<char>>| #[trigger]
                is_file_name(path@, name) && old(self)@.takes_asset(
                    final(self)@,
                    placed,
                    semantic_clip_id,
                    path@,
                    name,
                    media_duration@,
                ),
    {
        let name = file_name(path);
        self.add_named_asset_to_semantic_timeline(semantic_clip_id, path, &name, media_duration)
    }
}

} // verus!
