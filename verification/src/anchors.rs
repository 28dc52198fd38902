//! Linked clips that follow the main track, and selections that take their linked
//! companions along.
use crate::clip::{sort_clips, Clip, ClipView};
use crate::copying::views;
use crate::lanes::{lemma_all_clips, lemma_lanes_put, lemma_lanes_put_back, Lane};
use crate::links::{lane_shifted, move_clips, way, Shift};
use crate::lists::{first, found, holds, lemma_first, lemma_first_is};
use crate::time::Duration;
use crate::tracks::{Timeline, TimelineView};
use vstd::prelude::*;

verus! {

broadcast use crate::copying::group_views;

/// Where the first clip of a link group on the main track starts.
#[derive(Clone, Copy, Debug, PartialEq, Eq, Structural)]
pub struct GroupAnchor {
    pub group: u64,
    pub start: Duration,
}

/// Where the first clip of the group starts, if the group has a clip in the row.
pub open spec fn anchor(lane: Lane, group: u64) -> Option<int> {
    match found(lane, |c: ClipView| c.link_group_id == Some(group)) {
        Some(c) => Some(c.start),
        None => None,
    }
}

/// What a list of anchors says of a group.
pub open spec fn anchor_in(anchors: Seq<GroupAnchor>, group: u64) -> Option<int> {
    match found(anchors, |a: GroupAnchor| a.group == group) {
        Some(a) => Some(a.start@),
        None => None,
    }
}

/// Whether the list has the anchor of every group of the row.
pub open spec fn anchors_of(anchors: Seq<GroupAnchor>, lane: Lane) -> bool {
    forall|group: u64| #[trigger] anchor_in(anchors, group) == anchor(lane, group)
}

proof fn lemma_found_push<T>(s: Seq<T>, x: T, p: spec_fn(T) -> bool)
    ensures
        found(s.push(x), p) == match found(s, p) {
            Some(y) => Some(y),
            None => if p(x) {
                Some(x)
            } else {
                None
            },
        },
{
    lemma_first(s, p);
    let f = first(s, p);
    if f < s.len() {
        lemma_first_is(s.push(x), p, f);
    } else if p(x) {
        lemma_first_is(s.push(x), p, s.len() as int);
    } else {
        lemma_first_is(s.push(x), p, (s.len() + 1) as int);
    }
}

/// The anchor of the group in the list.
fn find_anchor(anchors: &Vec<GroupAnchor>, group: u64) -> (start: Option<Duration>)
    ensures
        start is Some == anchor_in(anchors@, group) is Some,
        start is Some ==> start->0@ == anchor_in(anchors@, group)->0,
{
    let ghost p = |a: GroupAnchor| a.group == group;
    let mut i: usize = 0;
    while i < anchors.len()
        invariant
            i <= anchors.len(),
            p == (|a: GroupAnchor| a.group == group),
            forall|j: int| 0 <= j < i ==> !p(#[trigger] anchors@[j]),
        decreases anchors.len() - i,
    {
        if anchors[i].group == group {
            proof {
                lemma_first_is(anchors@, p, i as int);
            }
            return Some(anchors[i].start);
        }
        i = i + 1;
    }
    proof {
        lemma_first_is(anchors@, p, i as int);
    }
    None
}

/// The anchors of the row's groups.
pub fn group_anchor_starts(lane: &Vec<Clip>) -> (anchors: Vec<GroupAnchor>)
    ensures
        anchors_of(anchors@, views(lane@)),
{
    let mut anchors: Vec<GroupAnchor> = Vec::new();
    let ghost clips = views(lane@);
    let mut i: usize = 0;
    assert forall|group: u64| #[trigger]
        anchor_in(anchors@, group) == anchor(clips.take(0), group) by {}
    while i < lane.len()
        invariant
            i <= lane.len(),
            clips == views(lane@),
            anchors_of(anchors@, clips.take(i as int)),
        decreases lane.len() - i,
    {
        let ghost before = anchors@;
        let ghost c = clips[i as int];
        if let Some(group) = lane[i].link_group_id {
            if find_anchor(&anchors, group).is_none() {
                anchors.push(GroupAnchor { group, start: lane[i].start });
            }
        }
        proof {
            assert(clips.take(i + 1) =~= clips.take(i as int).push(c));
            assert forall|group: u64| #[trigger]
                anchor_in(anchors@, group) == anchor(clips.take(i + 1), group) by {
                assert(anchor_in(before, group) == anchor(clips.take(i as int), group));
                lemma_found_push(
                    clips.take(i as int),
                    c,
                    |c: ClipView| c.link_group_id == Some(group),
                );
                if anchors@.len() > before.len() {
                    lemma_found_push(before, anchors@.last(), |a: GroupAnchor| a.group == group);
                    assert(anchors@ =~= before.push(anchors@.last()));
                }
            }
        }
        i = i + 1;
    }
    assert(clips.take(i as int) =~= clips);
    anchors
}

/// The way that the clip's anchor went from one list to the other.
fn anchor_way(old_anchors: &Vec<GroupAnchor>, new_anchors: &Vec<GroupAnchor>, c: &Clip) -> (shift:
    Shift)
    ensures
        shift@ == match c@.link_group_id {
            Some(group) => match (anchor_in(old_anchors@, group), anchor_in(new_anchors@, group)) {
                (Some(old_start), Some(new_start)) => new_start - old_start,
                _ => 0,
            },
            None => 0,
        },
{
    let nowhere = Shift { back: false, by: Duration::zero() };
    match c.link_group_id {
        Some(group) => match (find_anchor(old_anchors, group), find_anchor(new_anchors, group)) {
            (Some(old_start), Some(new_start)) => way(old_start, new_start),
            _ => nowhere,
        },
        None => nowhere,
    }
}

/// How far the anchor of a group went; 0 where it was not there before or is not
/// there now.
pub open spec fn anchor_delta(before: Lane, after: Lane, group: u64) -> int {
    match (anchor(before, group), anchor(after, group)) {
        (Some(old_start), Some(new_start)) => new_start - old_start,
        _ => 0,
    }
}

/// The move of a clip that follows its group's anchor.
pub open spec fn following(before: Lane, after: Lane) -> spec_fn(ClipView) -> int {
    |c: ClipView|
        match c.link_group_id {
            Some(group) => anchor_delta(before, after, group),
            None => 0,
        }
}

impl TimelineView {
    /// The timeline with the clips off the main track moved as far as the first clip
    /// of their group on the main track, whose clips were `before`.
    #[verifier::opaque]
    pub open spec fn following_v1(self, before: Lane) -> TimelineView {
        let delta_of = following(before, self.v1_clips);
        self.with_lanes(
            Seq::new(
                self.lane_count(),
                |i: int|
                    if i == 0 {
                        self.lane(0)
                    } else {
                        lane_shifted(self.lane(i), delta_of)
                    },
            ),
        )
    }
}

impl Timeline {
    /// The anchors of the main track's groups.
    pub fn v1_group_anchor_starts(&self) -> (anchors: Vec<GroupAnchor>)
        ensures
            anchors_of(anchors@, self@.v1_clips),
    {
        group_anchor_starts(&self.v1_clips)
    }

    /// Moves the clips off the main track as far as their group moved on it.
    pub fn sync_linked_tracks_from_v1_deltas(
        &mut self,
        old_anchors: &Vec<GroupAnchor>,
        Ghost(before): Ghost<Lane>,
    )
        requires
            old(self)@.lane_count() <= usize::MAX,
            anchors_of(old_anchors@, before),
        ensures
            final(self)@ == old(self)@.following_v1(before),
    {
        reveal(TimelineView::following_v1);
        let ghost base = self@;
        let ghost delta_of = following(before, base.v1_clips);
        let new_anchors = self.v1_group_anchor_starts();
        let n: usize = self.lane_count();
        let ghost mut now = base.lanes();
        let mut i: usize = 1;
        proof {
            lemma_lanes_put_back(base);
        }
        while i < n
            invariant
                1 <= i <= n,
                n == base.lane_count(),
                now.len() == n,
                self@ == base.with_lanes(now),
                delta_of == following(before, base.v1_clips),
                anchors_of(old_anchors@, before),
                anchors_of(new_anchors@, base.v1_clips),
                now[0] == base.lane(0),
                forall|j: int|
                    1 <= j < i ==> #[trigger] now[j] == lane_shifted(base.lane(j), delta_of),
                forall|j: int| i <= j < n ==> #[trigger] now[j] == base.lane(j),
            decreases n - i,
        {
            proof {
                lemma_lanes_put(base, now);
            }
            let ghost row = now[i as int];
            let lane = self.lane_mut(i);
            let way_of = |c: &Clip| -> (shift: Shift)
                ensures
                    shift@ == delta_of(c@),
            {
                anchor_way(old_anchors, &new_anchors, c)
            };
            let changed = move_clips(lane, way_of, Ghost(delta_of));
            if changed {
                sort_clips(lane);
            } else {
                proof {
                    crate::links::lemma_lane_moved_by_nothing(row, delta_of);
                }
            }
            proof {
                now = now.update(i as int, views(lane@));
            }
            i = i + 1;
        }
        proof {
            assert(now =~= Seq::new(
                base.lane_count(),
                |i: int|
                    if i == 0 {
                        base.lane(0)
                    } else {
                        lane_shifted(base.lane(i), delta_of)
                    },
            ));
        }
    }
}

// ---------------------------------------------------------------------------
// Selections with their companions
// ---------------------------------------------------------------------------

/// Whether one of the ids is that of a clip in the group.
pub open spec fn touches_group(clips: Lane, ids: Seq<u64>, group: u64) -> bool {
    exists|i: int|
        0 <= i < clips.len() && ids.contains((#[trigger] clips[i]).id) && clips[i].link_group_id
            == Some(group)
}

/// Whether the clip is in a group that one of the ids touches.
pub open spec fn is_companion(clips: Lane, ids: Seq<u64>, c: ClipView) -> bool {
    c.link_group_id is Some && touches_group(clips, ids, c.link_group_id->0)
}

/// Whether the id is one of the ids, or that of a clip linked with one of them.
pub open spec fn in_expansion(clips: Lane, ids: Seq<u64>, id: u64) -> bool {
    ids.contains(id) || exists|i: int|
        0 <= i < clips.len() && (#[trigger] clips[i]).id == id && is_companion(
            clips,
            ids,
            clips[i],
        )
}

proof fn lemma_touches_group(t: TimelineView, ids: Seq<u64>, group: u64)
    ensures
        touches_group(t.all_clips(), ids, group) <==> exists|i: int, k: int|
            0 <= i < t.lane_count() && 0 <= k < t.lane(i).len() && ids.contains(
                (#[trigger] t.lane(i)[k]).id,
            ) && t.lane(i)[k].link_group_id == Some(group),
{
    let all = t.all_clips();
    if touches_group(all, ids, group) {
        let j = choose|j: int|
            0 <= j < all.len() && ids.contains((#[trigger] all[j]).id) && all[j].link_group_id
                == Some(group);
        lemma_all_clips(t.lanes(), all[j]);
        assert(all.contains(all[j]));
        let i = choose|i: int|
            0 <= i < t.lanes().len() && (#[trigger] t.lanes()[i]).contains(all[j]);
        let k = t.lanes()[i].index_of(all[j]);
        assert(t.lane(i)[k] == all[j]);
    }
    if exists|i: int, k: int|
        0 <= i < t.lane_count() && 0 <= k < t.lane(i).len() && ids.contains(
            (#[trigger] t.lane(i)[k]).id,
        ) && t.lane(i)[k].link_group_id == Some(group) {
        let (i, k) = choose|i: int, k: int|
            0 <= i < t.lane_count() && 0 <= k < t.lane(i).len() && ids.contains(
                (#[trigger] t.lane(i)[k]).id,
            ) && t.lane(i)[k].link_group_id == Some(group);
        let c = t.lane(i)[k];
        assert(t.lanes()[i].contains(c));
        lemma_all_clips(t.lanes(), c);
        let j = all.index_of(c);
        assert(all[j] == c);
    }
}

impl Timeline {
    /// The groups that the ids touch.
    fn touched_groups(&self, ids: &Vec<u64>) -> (groups: Vec<u64>)
        requires
            self@.lane_count() <= usize::MAX,
        ensures
            forall|group: u64|
                groups@.contains(group) <==> #[trigger] touches_group(
                    self@.all_clips(),
                    ids@,
                    group,
                ),
    {
        let mut groups: Vec<u64> = Vec::new();
        let n: usize = self.lane_count();
        let mut i: usize = 0;
        while i < n
            invariant
                i <= n,
                n == self@.lane_count(),
                forall|group: u64| #[trigger]
                    groups@.contains(group) <==> exists|j: int, k: int|
                        0 <= j < i && 0 <= k < self@.lane(j).len() && ids@.contains(
                            (#[trigger] self@.lane(j)[k]).id,
                        ) && self@.lane(j)[k].link_group_id == Some(group),
            decreases n - i,
        {
            let lane = self.lane(i);
            let mut k: usize = 0;
            while k < lane.len()
                invariant
                    k <= lane.len(),
                    i < n,
                    n == self@.lane_count(),
                    views(lane@) == self@.lane(i as int),
                    forall|group: u64| #[trigger]
                        groups@.contains(group) <==> exists|j: int, m: int|
                            0 <= j <= i && 0 <= m < self@.lane(j).len() && (j < i || m < k)
                                && ids@.contains((#[trigger] self@.lane(j)[m]).id) && self@.lane(
                                j,
                            )[m].link_group_id == Some(group),
                decreases lane.len() - k,
            {
                let ghost before = groups@;
                let ghost c = self@.lane(i as int)[k as int];
                assert(c == lane@[k as int]@);
                if holds(ids, lane[k].id) {
                    if let Some(group) = lane[k].link_group_id {
                        groups.push(group);
                        assert(groups@.last() == group);
                    }
                }
                proof {
                    assert forall|group: u64| #[trigger] groups@.contains(group) <==> exists|
                        j: int,
                        m: int,
                    |
                        0 <= j <= i && 0 <= m < self@.lane(j).len() && (j < i || m < k + 1)
                            && ids@.contains((#[trigger] self@.lane(j)[m]).id) && self@.lane(
                            j,
                        )[m].link_group_id == Some(group) by {
                        if groups@.contains(group) {
                            let x = groups@.index_of(group);
                            if x < before.len() {
                                assert(before[x] == group);
                                assert(before.contains(group));
                            } else {
                                assert(c.link_group_id == Some(group));
                            }
                        }
                        if before.contains(group) {
                            let x = before.index_of(group);
                            assert(groups@[x] == group);
                        }
                    }
                }
                k = k + 1;
            }
            proof {
                assert forall|group: u64| #[trigger] groups@.contains(group) <==> exists|
                    j: int,
                    k: int,
                |
                    0 <= j < i + 1 && 0 <= k < self@.lane(j).len() && ids@.contains(
                        (#[trigger] self@.lane(j)[k]).id,
                    ) && self@.lane(j)[k].link_group_id == Some(group) by {}
            }
            i = i + 1;
        }
        proof {
            assert forall|group: u64|
                groups@.contains(group) <==> #[trigger] touches_group(
                    self@.all_clips(),
                    ids@,
                    group,
                ) by {
                lemma_touches_group(self@, ids@, group);
            }
        }
        groups
    }

    /// The ids together with those of the clips that are linked with them.
    pub fn expand_clip_ids_by_link_group(&self, selected: &Vec<u64>) -> (expanded: Vec<u64>)
        requires
            self@.lane_count() <= usize::MAX,
        ensures
            forall|id: u64| #[trigger]
                expanded@.contains(id) <==> in_expansion(self@.all_clips(), selected@, id),
    {
        let groups = self.touched_groups(selected);
        let mut expanded: Vec<u64> = crate::copying::copy_list(selected);
        let n: usize = self.lane_count();
        let ghost all = self@.all_clips();
        let mut i: usize = 0;
        while i < n
            invariant
                i <= n,
                n == self@.lane_count(),
                all == self@.all_clips(),
                forall|group: u64|
                    groups@.contains(group) <==> #[trigger] touches_group(all, selected@, group),
                forall|id: u64| #[trigger]
                    expanded@.contains(id) <==> selected@.contains(id) || exists|j: int, k: int|
                        0 <= j < i && 0 <= k < self@.lane(j).len() && (#[trigger] self@.lane(
                            j,
                        )[k]).id == id && is_companion(all, selected@, self@.lane(j)[k]),
            decreases n - i,
        {
            let lane = self.lane(i);
            let mut k: usize = 0;
            while k < lane.len()
                invariant
                    k <= lane.len(),
                    i < n,
                    n == self@.lane_count(),
                    all == self@.all_clips(),
                    views(lane@) == self@.lane(i as int),
                    forall|group: u64|
                        groups@.contains(group) <==> #[trigger] touches_group(
                            all,
                            selected@,
                            group,
                        ),
                    forall|id: u64| #[trigger]
                        expanded@.contains(id) <==> selected@.contains(id) || exists|
                            j: int,
                            m: int,
                        |
                            0 <= j <= i && 0 <= m < self@.lane(j).len() && (j < i || m < k) && (
                            #[trigger] self@.lane(j)[m]).id == id && is_companion(
                                all,
                                selected@,
                                self@.lane(j)[m],
                            ),
                decreases lane.len() - k,
            {
                let ghost before = expanded@;
                let ghost c = self@.lane(i as int)[k as int];
                assert(c == lane@[k as int]@);
                if let Some(group) = lane[k].link_group_id {
                    if holds(&groups, group) {
                        assert(touches_group(all, selected@, group));
                        expanded.push(lane[k].id);
                        assert(expanded@.last() == c.id);
                    } else {
                        assert(!touches_group(all, selected@, group));
                    }
                }
                proof {
                    assert forall|id: u64| #[trigger] expanded@.contains(id) <==> selected@.contains(
                        id,
                    ) || exists|j: int, m: int|
                        0 <= j <= i && 0 <= m < self@.lane(j).len() && (j < i || m < k + 1) && (
                        #[trigger] self@.lane(j)[m]).id == id && is_companion(
                            all,
                            selected@,
                            self@.lane(j)[m],
                        ) by {
                        if expanded@.contains(id) {
                            let x = expanded@.index_of(id);
                            if x < before.len() {
                                assert(before[x] == id);
                                assert(before.contains(id));
                            } else {
                                assert(c.id == id);
                            }
                        }
                        if before.contains(id) {
                            let x = before.index_of(id);
                            assert(expanded@[x] == id);
                        }
                    }
                }
                k = k + 1;
            }
            proof {
                assert forall|id: u64| #[trigger] expanded@.contains(id) <==> selected@.contains(
                    id,
                ) || exists|j: int, k: int|
                    0 <= j < i + 1 && 0 <= k < self@.lane(j).len() && (#[trigger] self@.lane(
                        j,
                    )[k]).id == id && is_companion(all, selected@, self@.lane(j)[k]) by {}
            }
            i = i + 1;
        }
        proof {
            assert forall|id: u64| #[trigger] expanded@.contains(id) <==> in_expansion(
                all,
                selected@,
                id,
            ) by {
                lemma_expansion(self@, selected@, id);
            }
        }
        expanded
    }
}

proof fn lemma_expansion(t: TimelineView, ids: Seq<u64>, id: u64)
    ensures
        in_expansion(t.all_clips(), ids, id) <==> ids.contains(id) || exists|i: int, k: int|
            0 <= i < t.lane_count() && 0 <= k < t.lane(i).len() && (#[trigger] t.lane(i)[k]).id
                == id && is_companion(t.all_clips(), ids, t.lane(i)[k]),
{
    let all = t.all_clips();
    if exists|j: int| 0 <= j < all.len() && (#[trigger] all[j]).id == id && is_companion(all, ids, all[j]) {
        let j = choose|j: int|
            0 <= j < all.len() && (#[trigger] all[j]).id == id && is_companion(all, ids, all[j]);
        lemma_all_clips(t.lanes(), all[j]);
        assert(all.contains(all[j]));
        let i = choose|i: int|
            0 <= i < t.lanes().len() && (#[trigger] t.lanes()[i]).contains(all[j]);
        let k = t.lanes()[i].index_of(all[j]);
        assert(t.lane(i)[k] == all[j]);
    }
    if exists|i: int, k: int|
        0 <= i < t.lane_count() && 0 <= k < t.lane(i).len() && (#[trigger] t.lane(i)[k]).id == id
            && is_companion(all, ids, t.lane(i)[k]) {
        let (i, k) = choose|i: int, k: int|
            0 <= i < t.lane_count() && 0 <= k < t.lane(i).len() && (#[trigger] t.lane(i)[k]).id
                == id && is_companion(all, ids, t.lane(i)[k]);
        let c = t.lane(i)[k];
        assert(t.lanes()[i].contains(c));
        lemma_all_clips(t.lanes(), c);
        let j = all.index_of(c);
        assert(all[j] == c);
    }
}

} // verus!
