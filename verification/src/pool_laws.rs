//! What edits of the media pool, of subtitles and of volumes change, and where times go when stretches
//! are taken out.
use crate::clip::ClipView;
use crate::lanes::{lemma_lanes_put, Lane};
use crate::lists::lemma_first;
use crate::media_paths::media_name;
use crate::media_pool::{item_place, lane_relocated, lane_without_file};
use crate::moves::place_of;
use crate::ripple::lemma_filter_keeps_all;
use crate::scalar::Scalar;
use crate::state::StateView;
use crate::subtitle::SubtitleClipView;
use crate::subtitle_edits::{audio_track_of, SubtitleEditView};
use crate::time_ranges::{apart, covered, remapped, removed_before, TimeRange};
use crate::tracks::{
    AudioTrackView, MediaPoolItemView, MediaPoolUndoStateView, SnapshotView, TimelineView, UndoView,
};
use vstd::prelude::*;

verus! {

// ---------------------------------------------------------------------------
// Times
// ---------------------------------------------------------------------------

proof fn lemma_step(ranges: Seq<TimeRange>, t: int)
    requires
        apart(ranges),
        0 <= t,
    ensures
        removed_before(ranges, t + 1) - removed_before(ranges, t) == if covered(ranges, t) {
            1int
        } else {
            0
        },
        removed_before(ranges, 0) == 0,
    decreases ranges.len(),
{
    if ranges.len() > 0 {
        let front = ranges.drop_last();
        let r = ranges.last();
        let n = ranges.len() - 1;
        assert(ranges[n] == r);
        assert(r.is_proper());
        assert forall|i: int| 0 <= i < front.len() implies (#[trigger] front[i]).is_proper() by {
            assert(ranges[i].is_proper());
        }
        assert forall|i: int, j: int| 0 <= i < j < front.len() implies (#[trigger] front[i]).end@ < (
        #[trigger] front[j]).start@ by {
            assert(ranges[i].end@ < ranges[j].start@);
        }
        lemma_step(front, t);
        if covered(front, t) {
            let i = choose|i: int| 0 <= i < front.len() && (#[trigger] front[i]).covers(t);
            assert(ranges[i].covers(t));
            assert(ranges[i].end@ < ranges[n].start@);
        }
        if r.covers(t) {
            assert(ranges[n].covers(t));
        }
        if covered(ranges, t) && !r.covers(t) {
            let i = choose|i: int| 0 <= i < ranges.len() && (#[trigger] ranges[i]).covers(t);
            assert(front[i].covers(t));
        }
    }
}

/// Taking stretches out lets time stand still in them and go on outside them: from one moment to the
/// next a time goes on by one, unless it is in a stretch that is taken out. It begins at the start.
pub proof fn time_stands_still_in_stretches(ranges: Seq<TimeRange>, t: int)
    requires
        apart(ranges),
        0 <= t,
    ensures
        remapped(0, ranges) == 0,
        remapped(t + 1, ranges) == remapped(t, ranges) + if (exists|i: int|
            0 <= i < ranges.len() && (#[trigger] ranges[i]).start@ <= t < ranges[i].end@) {
            0int
        } else {
            1
        },
{
    lemma_step(ranges, t);
    if covered(ranges, t) {
        let i = choose|i: int| 0 <= i < ranges.len() && (#[trigger] ranges[i]).covers(t);
        assert(ranges[i].start@ <= t < ranges[i].end@);
    }
    if exists|i: int| 0 <= i < ranges.len() && (#[trigger] ranges[i]).start@ <= t < ranges[i].end@ {
        let i = choose|i: int|
            0 <= i < ranges.len() && (#[trigger] ranges[i]).start@ <= t < ranges[i].end@;
        assert(ranges[i].covers(t));
    }
}

// ---------------------------------------------------------------------------
// The media pool
// ---------------------------------------------------------------------------

/// Adding a medium to the pool leaves the others as they were. A new one has its name and its length
/// and comes last; of one that is there the length is brought up to date. What is no medium is not
/// taken.
pub proof fn added_medium_leaves_the_others(
    m: MediaPoolUndoStateView,
    path: Seq<char>,
    name: Seq<char>,
    duration: int,
)
    ensures
        ({
            let after = m.with_item(path, name, duration);
            let there = exists|i: int|
                0 <= i < m.media_pool.len() && (#[trigger] m.media_pool[i]).path == path;
            &&& !media_name(path) ==> after == m
            &&& media_name(path) && !there ==> after == (MediaPoolUndoStateView {
                media_pool: m.media_pool.push(
                    MediaPoolItemView { path, name, duration, preview_jpeg_base64: None },
                ),
                ..m
            })
            &&& media_name(path) && there ==> {
                &&& after.media_pool.len() == m.media_pool.len()
                &&& after == (MediaPoolUndoStateView { media_pool: after.media_pool, ..m })
                &&& forall|i: int|
                    0 <= i < m.media_pool.len() && (#[trigger] m.media_pool[i]).path != path
                        ==> after.media_pool[i] == m.media_pool[i]
                &&& exists|i: int|
                    0 <= i < m.media_pool.len() && (#[trigger] m.media_pool[i]).path == path
                        && after.media_pool[i] == (MediaPoolItemView {
                        duration,
                        ..m.media_pool[i]
                    })
            }
        }),
{
    let p = crate::media_pool::is_item(path);
    lemma_first(m.media_pool, p);
    let at = item_place(m.media_pool, path);
    if at < m.media_pool.len() {
        assert(p(m.media_pool[at]));
        assert(m.media_pool[at].path == path);
    } else {
        assert forall|i: int| 0 <= i < m.media_pool.len() implies (#[trigger] m.media_pool[i]).path
            != path by {
            assert(!p(m.media_pool[i]));
        }
    }
}

/// A source that is loaded is in the pool and is the active one, with its length.
pub proof fn loaded_source_is_active(
    s: StateView,
    path: Seq<char>,
    name: Option<Seq<char>>,
    duration: int,
)
    ensures
        ({
            let after = s.with_loaded(path, name, duration);
            &&& after.media.active_source_path == path
            &&& after.media.active_source_duration == duration
            &&& after.media.active_source_name == if name is Some {
                name->0
            } else {
                "Unknown"@
            }
            &&& after.media.media_pool == s.media.with_item(
                path,
                after.media.active_source_name,
                duration,
            ).media_pool
            &&& after.timeline == s.timeline
        }),
{
}

/// Removing a medium takes it out of the pool and its clips out of every row, and leaves the others.
/// Where it was the active one, the first of the others is, if there is one.
pub proof fn removed_medium_takes_its_clips_along(s: StateView, path: Seq<char>, i: int)
    requires
        0 <= i < s.timeline.lane_count(),
        !(s.v1_move_mode is Magnetic),
    ensures
        ({
            let after = s.without_media(path);
            &&& forall|x: MediaPoolItemView|
                #[trigger] after.media.media_pool.contains(x) <==> s.media.media_pool.contains(x)
                    && x.path != path
            &&& forall|c: ClipView|
                #[trigger] after.timeline.lane(i).contains(c) <==> s.timeline.lane(i).contains(c)
                    && c.file_path != path
            &&& s.media.active_source_path != path ==> after.media.active_source_path
                == s.media.active_source_path
            &&& s.media.active_source_path == path && after.media.media_pool.len() > 0
                ==> after.media.active_source_path == after.media.media_pool[0].path
                && after.media.active_source_duration == after.media.media_pool[0].duration
            &&& s.media.active_source_path == path && after.media.media_pool.len() == 0
                ==> after.media.active_source_path == ""@ && after.media.active_source_duration == 0
        }),
{
    reveal(StateView::without_media);
    reveal(TimelineView::without_file);
    crate::state::saving_keeps_all_else(s, true);
    lemma_saved_media(s);
    let t = s.timeline;
    let p = |x: MediaPoolItemView| x.path != path;
    lemma_filter_keeps_all(s.media.media_pool, p);
    let q = |c: ClipView| c.file_path != path;
    lemma_filter_keeps_all(t.lane(i), q);
    let f = |lane: Lane| lane_without_file(lane, path);
    lemma_lanes_put(t, t.lanes().map_values(f));
    let left = t.each_lane(f);
    assert(left.lane(i) == left.lanes()[i]);
    if !t.uses_file(path) {
        assert forall|c: ClipView| t.lane(i).contains(c) implies c.file_path != path by {
            let k = choose|k: int| 0 <= k < t.lane(i).len() && t.lane(i)[k] == c;
            assert(t.lane(i)[k].file_path != path);
        }
    }
}

proof fn lemma_saved_media(s: StateView)
    ensures
        s.saved(true).media == s.media,
{
    crate::state::saving_keeps_all_else(s, true);
}

/// A medium that moved is found under its new path by every clip that showed it, and nothing else
/// changes of the clips.
pub proof fn relocated_medium_is_shown(
    s: StateView,
    old_path: Seq<char>,
    new_path: Seq<char>,
    name: Option<Seq<char>>,
    i: int,
    k: int,
)
    requires
        0 <= i < s.timeline.lane_count(),
        0 <= k < s.timeline.lane(i).len(),
    ensures
        ({
            let after = s.with_relocated(old_path, new_path, name).timeline;
            let c = s.timeline.lane(i)[k];
            &&& after.lane(i).len() == s.timeline.lane(i).len()
            &&& after.lane(i)[k] == if c.file_path == old_path {
                ClipView { file_path: new_path, ..c }
            } else {
                c
            }
        }),
{
    let t = s.timeline;
    let f = |lane: Lane| lane_relocated(lane, old_path, new_path);
    lemma_lanes_put(t, t.lanes().map_values(f));
    let after = t.each_lane(f);
    assert(after.lane(i) == after.lanes()[i]);
}

// ---------------------------------------------------------------------------
// Subtitles and volumes
// ---------------------------------------------------------------------------

/// An edit of a subtitle changes what it names and nothing else: a place within the screen, a size of
/// letters from 8 to 256, a text, a colour or letters as they are given.
pub proof fn edited_subtitle_has_what_was_set(
    c: SubtitleClipView,
    v: Scalar,
    text: Seq<char>,
    color: (u8, u8, u8, u8),
    path: Option<Seq<char>>,
    family: Option<Seq<char>>,
)
    ensures
        ({
            let low = Scalar { bits: 0xbf80_0000 };
            let high = Scalar { bits: 0x3f80_0000 };
            &&& c.edited(SubtitleEditView::Text(text)) == (SubtitleClipView { text, ..c })
            &&& c.edited(SubtitleEditView::PosX(v)) == (SubtitleClipView {
                pos_x: v.clamped(low, high),
                ..c
            })
            &&& c.edited(SubtitleEditView::PosY(v)) == (SubtitleClipView {
                pos_y: v.clamped(low, high),
                ..c
            })
            &&& c.edited(SubtitleEditView::FontSize(v)) == (SubtitleClipView {
                font_size: v.clamped(Scalar { bits: 0x4100_0000 }, Scalar { bits: 0x4380_0000 }),
                ..c
            })
            &&& c.edited(SubtitleEditView::Color(color)) == (SubtitleClipView {
                color_rgba: color,
                ..c
            })
            &&& c.edited(SubtitleEditView::Font { path, family }) == (SubtitleClipView {
                font_path: path,
                font_family: family,
                ..c
            })
        }),
{
}

/// A volume is set as it is given, from -60 to 12 decibels, on its track alone.
pub proof fn set_volume_is_kept(t: TimelineView, track: int, db: Scalar)
    requires
        0 <= track < t.audio_tracks.len(),
    ensures
        ({
            let set = crate::subtitle_edits::gain(db);
            let after = t.with_track_gain(track, set);
            &&& set == db.clamped(Scalar { bits: 0xc270_0000 }, Scalar { bits: 0x4140_0000 })
            &&& after.audio_tracks.len() == t.audio_tracks.len()
            &&& after.audio_tracks[track].gain_db == set
            &&& after.audio_tracks[track].clips == t.audio_tracks[track].clips
            &&& forall|k: int|
                0 <= k < t.audio_tracks.len() && k != track ==> #[trigger] after.audio_tracks[k]
                    == t.audio_tracks[k]
        }),
{
    reveal(TimelineView::with_track_gain);
}

proof fn lemma_audio_track(tracks: Seq<AudioTrackView>, id: u64, from: int)
    requires
        0 <= from <= tracks.len(),
    ensures
        from <= audio_track_of(tracks, id, from) <= tracks.len(),
        audio_track_of(tracks, id, from) < tracks.len() ==> place_of(
            tracks[audio_track_of(tracks, id, from)].clips,
            id,
        ) < tracks[audio_track_of(tracks, id, from)].clips.len(),
        audio_track_of(tracks, id, from) == tracks.len() ==> forall|i: int|
            from <= i < tracks.len() ==> place_of((#[trigger] tracks[i]).clips, id)
                >= tracks[i].clips.len(),
    decreases tracks.len() - from,
{
    if from < tracks.len() && place_of(tracks[from].clips, id) >= tracks[from].clips.len() {
        lemma_audio_track(tracks, id, from + 1);
    }
}

/// Whether a sound of a timeline has an id.
pub open spec fn is_sound(t: TimelineView, id: u64, i: int, k: int) -> bool {
    &&& 0 <= i < t.audio_tracks.len()
    &&& 0 <= k < t.audio_tracks[i].clips.len()
    &&& t.audio_tracks[i].clips[k].id == id
}

/// Setting the volume of a sound, from -60 to 12 decibels, changes that of one sound with the id, and
/// nothing else of it or of any other.
pub proof fn set_sound_volume_is_kept(t: TimelineView, id: u64, db: Scalar, i: int, k: int)
    requires
        is_sound(t, id, i, k),
    ensures
        t.sound(id) is Some,
        ({
            let set = db.clamped(Scalar { bits: 0xc270_0000 }, Scalar { bits: 0x4140_0000 });
            let after = t.with_sound_gain(id, crate::subtitle_edits::gain(db));
            exists|a: int, b: int|
                {
                    &&& #[trigger] is_sound(t, id, a, b)
                    &&& after.audio_tracks.len() == t.audio_tracks.len()
                    &&& after.audio_tracks[a].clips.len() == t.audio_tracks[a].clips.len()
                    &&& after.audio_tracks[a].gain_db == t.audio_tracks[a].gain_db
                    &&& after.audio_tracks[a].clips[b] == (ClipView {
                        audio_gain_db: set,
                        ..t.audio_tracks[a].clips[b]
                    })
                    &&& forall|x: int|
                        0 <= x < t.audio_tracks[a].clips.len() && x != b
                            ==> #[trigger] after.audio_tracks[a].clips[x]
                            == t.audio_tracks[a].clips[x]
                    &&& forall|x: int|
                        0 <= x < t.audio_tracks.len() && x != a ==> #[trigger] after.audio_tracks[x]
                            == t.audio_tracks[x]
                    &&& after.v1_clips == t.v1_clips
                    &&& after.video_tracks == t.video_tracks
                }
        }),
{
    reveal(TimelineView::with_sound_gain);
    let p = |c: ClipView| c.id == id;
    lemma_audio_track(t.audio_tracks, id, 0);
    lemma_first(t.audio_tracks[i].clips, p);
    assert(p(t.audio_tracks[i].clips[k]));
    let a = audio_track_of(t.audio_tracks, id, 0);
    assert(a < t.audio_tracks.len());
    lemma_first(t.audio_tracks[a].clips, p);
    let b = place_of(t.audio_tracks[a].clips, id);
    assert(is_sound(t, id, a, b));
}

/// Grouping subtitles puts them, and no others, into a group that is shown as it is: neither moved nor
/// made larger.
pub proof fn grouped_subtitles_stay_as_they_are(t: TimelineView, ids: Seq<u64>, i: int, k: int)
    requires
        0 <= i < t.subtitle_tracks.len(),
        0 <= k < t.subtitle_tracks[i].clips.len(),
    ensures
        ({
            let after = t.with_new_group(ids);
            let c = t.subtitle_tracks[i].clips[k];
            let g = t.next_subtitle_group_id;
            &&& after.subtitle_tracks[i].clips.len() == t.subtitle_tracks[i].clips.len()
            &&& after.subtitle_tracks[i].clips[k] == if ids.contains(c.id) {
                SubtitleClipView { group_id: Some(g), ..c }
            } else {
                c
            }
            &&& after.subtitle_groups.contains_key(g)
            &&& after.subtitle_groups[g].offset_x.bits == 0
            &&& after.subtitle_groups[g].offset_y.bits == 0
            &&& after.subtitle_groups[g].scale.bits == 0x3f80_0000
        }),
{
    reveal(TimelineView::with_new_group);
    reveal(TimelineView::with_subtitle_edits);
}

// ---------------------------------------------------------------------------
// History
// ---------------------------------------------------------------------------

/// The history holds the last fifty edits: one more edit is remembered last, and only where there are
/// fifty before it is the oldest forgotten.
pub proof fn history_holds_fifty_edits(h: UndoView, state: SnapshotView)
    requires
        h.past.len() <= 50,
    ensures
        ({
            let after = h.pushed(state);
            &&& after.past.len() <= 50
            &&& after.past.last() == state
            &&& after.future.len() == 0
            &&& h.past.len() < 50 ==> after.past == h.past.push(state)
            &&& h.past.len() == 50 ==> after.past == h.past.skip(1).push(state)
        }),
{
    let after = h.pushed(state);
    if h.past.len() == 50 {
        assert(after.past =~= h.past.skip(1).push(state));
    } else {
        assert(after.past =~= h.past.push(state));
    }
}

} // verus!
