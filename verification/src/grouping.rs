//! Linking and unlinking the selected clips.
use crate::clip::{Clip, ClipView};
use crate::copying::{copy_list, views};
use crate::lanes::{lemma_all_clips, lemma_lanes_put, lemma_lanes_put_back, Lane};
use crate::lists::holds;
use crate::repair::in_group;
use crate::state::{GlobalState, Selection, SelectionView, StateView};
use crate::tracks::{Timeline, TimelineView};
use vstd::prelude::*;

verus! {

broadcast use crate::copying::group_views;

impl SelectionView {
    /// The ids of the selected clips.
    pub open spec fn clip_ids(self) -> Seq<u64> {
        if self.selected_clip_ids.len() == 0 && self.selected_clip_id is Some {
            seq![self.selected_clip_id->0]
        } else {
            self.selected_clip_ids
        }
    }

    /// The ids of the selected subtitles.
    pub open spec fn subtitle_ids(self) -> Seq<u64> {
        if self.selected_subtitle_ids.len() == 0 && self.selected_subtitle_id is Some {
            seq![self.selected_subtitle_id->0]
        } else {
            self.selected_subtitle_ids
        }
    }
}

impl Selection {
    /// The ids of the selected clips.
    pub fn clip_ids(&self) -> (ids: Vec<u64>)
        ensures
            ids@ == self@.clip_ids(),
    {
        let mut ids = copy_list(&self.selected_clip_ids);
        if ids.len() == 0 {
            if let Some(id) = self.selected_clip_id {
                ids.push(id);
            }
        }
        ids
    }

    /// The ids of the selected subtitles.
    pub fn subtitle_ids(&self) -> (ids: Vec<u64>)
        ensures
            ids@ == self@.subtitle_ids(),
    {
        let mut ids = copy_list(&self.selected_subtitle_ids);
        if ids.len() == 0 {
            if let Some(id) = self.selected_subtitle_id {
                ids.push(id);
            }
        }
        ids
    }
}

/// The row with the picked clips in another link group.
pub open spec fn lane_regrouped(lane: Lane, pick: spec_fn(ClipView) -> bool, group: Option<u64>) -> Lane {
    lane.map_values(
        |c: ClipView|
            if pick(c) {
                in_group(c, group)
            } else {
                c
            },
    )
}

impl TimelineView {
    /// The timeline with the picked clips in another link group.
    pub open spec fn regrouped(self, pick: spec_fn(ClipView) -> bool, group: Option<u64>) -> TimelineView {
        self.with_lanes(
            Seq::new(self.lane_count(), |i: int| lane_regrouped(self.lane(i), pick, group)),
        )
    }

    /// Whether the ids are those of at least two different clips.
    pub open spec fn has_two_of(self, ids: Seq<u64>) -> bool {
        exists|a: ClipView, b: ClipView|
            a.id != b.id && ids.contains(a.id) && ids.contains(b.id)
                && #[trigger] self.all_clips().contains(a) && #[trigger] self.all_clips().contains(
                b,
            )
    }

    /// Whether the clip is in a link group of a clip with one of the ids.
    pub open spec fn shares_group(self, ids: Seq<u64>) -> spec_fn(ClipView) -> bool {
        |c: ClipView| c.link_group_id is Some && self.is_group_of(ids, c.link_group_id->0)
    }

    /// Whether the group is that of one of the ids.
    pub open spec fn is_group_of(self, ids: Seq<u64>, group: u64) -> bool {
        exists|i: int| 0 <= i < ids.len() && #[trigger] self.group_of(ids[i]) == Some(group)
    }

    /// Whether one of the ids is that of a linked clip.
    pub open spec fn any_linked(self, ids: Seq<u64>) -> bool {
        exists|i: int| 0 <= i < ids.len() && #[trigger] self.group_of(ids[i]) is Some
    }
}

impl StateView {
    /// Whether the selected clips can be linked.
    pub open spec fn can_link_selected(self) -> bool {
        let ids = self.selection.clip_ids();
        ids.len() >= 2 && self.timeline.has_two_of(ids)
    }

    /// The state with the selected clips in one new link group.
    pub open spec fn selected_linked(self) -> StateView {
        let ids = self.selection.clip_ids();
        if !self.can_link_selected() {
            self
        } else {
            let s = self.saved(false);
            StateView {
                timeline: s.timeline.regrouped(
                    |c: ClipView| ids.contains(c.id),
                    Some(s.timeline.free_group()),
                ),
                ..s
            }
        }
    }

    /// The state without the link groups of the selected clips.
    pub open spec fn selected_unlinked(self) -> StateView {
        let ids = self.selection.clip_ids();
        if !self.timeline.any_linked(ids) {
            self
        } else {
            let s = self.saved(false);
            StateView {
                timeline: s.timeline.regrouped(self.timeline.shares_group(ids), None),
                ..s
            }
        }
    }
}

impl Timeline {
    /// Puts the clips that `test` accepts into another link group. Says whether there
    /// were any.
    fn regroup<F: Fn(&Clip) -> bool>(
        &mut self,
        test: F,
        group: Option<u64>,
        Ghost(pick): Ghost<spec_fn(ClipView) -> bool>,
    ) -> (changed: bool)
        requires
            old(self)@.lane_count() <= usize::MAX,
            forall|c: &Clip| #[trigger] call_requires(test, (c,)),
            forall|c: &Clip, yes: bool| #[trigger]
                call_ensures(test, (c,), yes) ==> yes == pick(c@),
        ensures
            final(self)@ == old(self)@.regrouped(pick, group),
            changed == exists|i: int, k: int|
                0 <= i < old(self)@.lane_count() && 0 <= k < old(self)@.lane(i).len() && pick(
                    #[trigger] old(self)@.lane(i)[k],
                ),
    {
        let ghost base = self@;
        let n: usize = self.lane_count();
        let ghost mut now = base.lanes();
        let mut changed = false;
        let mut i: usize = 0;
        proof {
            lemma_lanes_put_back(base);
        }
        while i < n
            invariant
                i <= n,
                n == base.lane_count(),
                now.len() == n,
                self@ == base.with_lanes(now),
                forall|c: &Clip| #[trigger] call_requires(test, (c,)),
                forall|c: &Clip, yes: bool| #[trigger]
                    call_ensures(test, (c,), yes) ==> yes == pick(c@),
                forall|j: int|
                    0 <= j < i ==> #[trigger] now[j] == lane_regrouped(base.lane(j), pick, group),
                forall|j: int| i <= j < n ==> #[trigger] now[j] == base.lane(j),
                changed == exists|j: int, k: int|
                    0 <= j < i && 0 <= k < base.lane(j).len() && pick(#[trigger] base.lane(j)[k]),
            decreases n - i,
        {
            proof {
                lemma_lanes_put(base, now);
            }
            let ghost row = base.lane(i as int);
            let ghost found_before = changed;
            let lane = self.lane_mut(i);
            assert(views(lane@) == row);
            let mut k: usize = 0;
            while k < lane.len()
                invariant
                    k <= lane.len(),
                    lane.len() == row.len(),
                    0 <= i < n,
                    row == base.lane(i as int),
                    forall|c: &Clip| #[trigger] call_requires(test, (c,)),
                    forall|c: &Clip, yes: bool| #[trigger]
                        call_ensures(test, (c,), yes) ==> yes == pick(c@),
                    forall|j: int|
                        0 <= j < k ==> #[trigger] views(lane@)[j] == if pick(row[j]) {
                            in_group(row[j], group)
                        } else {
                            row[j]
                        },
                    forall|j: int| k <= j < row.len() ==> #[trigger] views(lane@)[j] == row[j],
                    changed == (found_before || exists|j: int|
                        0 <= j < k && pick(#[trigger] row[j])),
                decreases lane.len() - k,
            {
                assert(views(lane@)[k as int] == row[k as int]);
                if test(&lane[k]) {
                    let ghost mid = lane@;
                    lane[k].link_group_id = group;
                    assert(lane@ =~= mid.update(k as int, lane@[k as int]));
                    assert(pick(row[k as int]));
                    changed = true;
                }
                k = k + 1;
            }
            proof {
                assert(views(lane@) =~= lane_regrouped(row, pick, group));
                now = now.update(i as int, views(lane@));
                if changed && !found_before {
                    let j = choose|j: int| 0 <= j < k && pick(#[trigger] row[j]);
                    assert(pick(base.lane(i as int)[j]));
                }
            }
            i = i + 1;
        }
        assert(now =~= Seq::new(
            base.lane_count(),
            |i: int| lane_regrouped(base.lane(i), pick, group),
        ));
        changed
    }

    /// Whether the ids are those of at least two different clips.
    fn has_two_of(&self, ids: &Vec<u64>) -> (yes: bool)
        requires
            self@.lane_count() <= usize::MAX,
        ensures
            yes == self@.has_two_of(ids@),
    {
        let n: usize = self.lane_count();
        let mut one: Option<u64> = None;
        let ghost mut witness: Option<ClipView> = None;
        let mut i: usize = 0;
        while i < n
            invariant
                i <= n,
                n == self@.lane_count(),
                one is Some == witness is Some,
                one is Some ==> one->0 == (witness->0).id && ids@.contains(one->0)
                    && self@.all_clips().contains(witness->0),
                forall|j: int, m: int|
                    0 <= j < i && 0 <= m < self@.lane(j).len() && ids@.contains(
                        (#[trigger] self@.lane(j)[m]).id,
                    ) ==> one == Some(self@.lane(j)[m].id),
            decreases n - i,
        {
            let lane = self.lane(i);
            let mut k: usize = 0;
            while k < lane.len()
                invariant
                    k <= lane.len(),
                    i < n,
                    n == self@.lane_count(),
                    views(lane@) == self@.lane(i as int),
                    one is Some == witness is Some,
                    one is Some ==> one->0 == (witness->0).id && ids@.contains(one->0)
                        && self@.all_clips().contains(witness->0),
                    forall|j: int, m: int|
                        0 <= j < i && 0 <= m < self@.lane(j).len() && ids@.contains(
                            (#[trigger] self@.lane(j)[m]).id,
                        ) ==> one == Some(self@.lane(j)[m].id),
                    forall|m: int|
                        0 <= m < k && ids@.contains((#[trigger] self@.lane(i as int)[m]).id)
                            ==> one == Some(self@.lane(i as int)[m].id),
                decreases lane.len() - k,
            {
                let id: u64 = lane[k].id;
                let ghost c = self@.lane(i as int)[k as int];
                assert(c == lane@[k as int]@);
                if holds(ids, id) {
                    proof {
                        assert(self@.lanes()[i as int].contains(c));
                        lemma_all_clips(self@.lanes(), c);
                    }
                    match one {
                        Some(other) => {
                            if other != id {
                                assert(self@.all_clips().contains(witness->0));
                                assert(self@.all_clips().contains(c));
                                return true;
                            }
                        },
                        None => {
                            one = Some(id);
                            proof {
                                witness = Some(c);
                            }
                        },
                    }
                }
                k = k + 1;
            }
            i = i + 1;
        }
        proof {
            if self@.has_two_of(ids@) {
                let (a, b) = choose|a: ClipView, b: ClipView|
                    a.id != b.id && ids@.contains(a.id) && ids@.contains(b.id)
                        && #[trigger] self@.all_clips().contains(a)
                        && #[trigger] self@.all_clips().contains(b);
                lemma_all_clips(self@.lanes(), a);
                lemma_all_clips(self@.lanes(), b);
                let x = choose|x: int|
                    0 <= x < self@.lanes().len() && (#[trigger] self@.lanes()[x]).contains(a);
                let y = choose|y: int|
                    0 <= y < self@.lanes().len() && (#[trigger] self@.lanes()[y]).contains(b);
                assert(self@.lane(x)[self@.lanes()[x].index_of(a)] == a);
                assert(self@.lane(y)[self@.lanes()[y].index_of(b)] == b);
            }
        }
        false
    }

    /// The link groups of the clips with the ids.
    fn groups_of(&self, ids: &Vec<u64>) -> (groups: Vec<u64>)
        requires
            self@.lane_count() <= usize::MAX,
        ensures
            forall|group: u64|
                groups@.contains(group) <==> #[trigger] self@.is_group_of(ids@, group),
            groups.len() > 0 <==> self@.any_linked(ids@),
    {
        let mut groups: Vec<u64> = Vec::new();
        let mut i: usize = 0;
        while i < ids.len()
            invariant
                i <= ids.len(),
                self@.lane_count() <= usize::MAX,
                forall|group: u64| #[trigger]
                    groups@.contains(group) <==> exists|j: int|
                        0 <= j < i && #[trigger] self@.group_of(ids@[j]) == Some(group),
                groups.len() > 0 <==> exists|j: int|
                    0 <= j < i && #[trigger] self@.group_of(ids@[j]) is Some,
            decreases ids.len() - i,
        {
            let ghost before = groups@;
            let group = self.clip_link_group_id(ids[i]);
            assert(group == self@.group_of(ids@[i as int]));
            if let Some(g) = group {
                groups.push(g);
                assert(groups@.last() == g);
            }
            proof {
                assert forall|g: u64| #[trigger] groups@.contains(g) <==> exists|j: int|
                    0 <= j < i + 1 && #[trigger] self@.group_of(ids@[j]) == Some(g) by {
                    if groups@.contains(g) {
                        let x = groups@.index_of(g);
                        if x < before.len() {
                            assert(before[x] == g);
                            assert(before.contains(g));
                        } else {
                            assert(self@.group_of(ids@[i as int]) == Some(g));
                        }
                    }
                    if before.contains(g) {
                        assert(groups@[before.index_of(g)] == g);
                    }
                }
            }
            i = i + 1;
        }
        groups
    }
}

impl GlobalState {
    /// Whether a selected clip is linked.
    pub fn selected_clips_have_any_link_group(&self) -> (yes: bool)
        requires
            self@.timeline.lane_count() <= usize::MAX,
        ensures
            yes == self@.timeline.any_linked(self@.selection.clip_ids()),
    {
        let ids = self.selection.clip_ids();
        self.timeline.groups_of(&ids).len() > 0
    }

    /// Puts the selected clips into one new link group. Says whether there were two.
    pub fn link_selected_clips_into_group(&mut self) -> (linked: bool)
        requires
            old(self)@.timeline.lane_count() <= usize::MAX,
        ensures
            linked == old(self)@.can_link_selected(),
            final(self)@ == old(self)@.selected_linked(),
    {
        let ids = self.selection.clip_ids();
        if ids.len() < 2 || !self.timeline.has_two_of(&ids) {
            return false;
        }
        self.save_for_undo();
        let group = self.timeline.allocate_next_link_group_id();
        let test = |c: &Clip| -> (yes: bool)
            ensures
                yes == ids@.contains(c@.id),
        {
            holds(&ids, c.id)
        };
        self.timeline.regroup(test, Some(group), Ghost(|c: ClipView| ids@.contains(c.id)));
        true
    }

    /// Takes the selected clips and all that they are linked with out of their link
    /// groups. Says whether there was a link.
    pub fn unlink_selected_clips_groups(&mut self) -> (unlinked: bool)
        requires
            old(self)@.timeline.lane_count() <= usize::MAX,
        ensures
            unlinked == old(self)@.timeline.any_linked(old(self)@.selection.clip_ids()),
            final(self)@ == old(self)@.selected_unlinked(),
    {
        let ids = self.selection.clip_ids();
        let groups = self.timeline.groups_of(&ids);
        if groups.len() == 0 {
            return false;
        }
        let ghost before = self@.timeline;
        let ghost pick = before.shares_group(ids@);
        self.save_for_undo();
        let test = |c: &Clip| -> (yes: bool)
            ensures
                yes == (c@.link_group_id is Some && groups@.contains(c@.link_group_id->0)),
        {
            match c.link_group_id {
                Some(group) => holds(&groups, group),
                None => false,
            }
        };
        proof {
            assert forall|c: &Clip, yes: bool| #[trigger]
                call_ensures(test, (c,), yes) implies yes == pick(c@) by {
                if c@.link_group_id is Some {
                    assert(groups@.contains(c@.link_group_id->0) == before.is_group_of(
                        ids@,
                        c@.link_group_id->0,
                    ));
                }
            }
        }
        let changed = self.timeline.regroup(test, None, Ghost(pick));
        proof {
            let i = choose|i: int| 0 <= i < ids@.len() && #[trigger] before.group_of(ids@[i]) is Some;
            lemma_group_has_clip(before, ids@, i);
        }
        changed
    }
}

proof fn lemma_group_has_clip(t: TimelineView, ids: Seq<u64>, i: int)
    requires
        0 <= i < ids.len(),
        t.group_of(ids[i]) is Some,
    ensures
        exists|x: int, k: int|
            0 <= x < t.lane_count() && 0 <= k < t.lane(x).len() && t.shares_group(ids)(
                #[trigger] t.lane(x)[k],
            ),
{
    let p = |c: ClipView| c.id == ids[i];
    let all = t.all_clips();
    crate::lists::lemma_first(all, p);
    let c = all[crate::lists::first(all, p)];
    assert(all.contains(c));
    lemma_all_clips(t.lanes(), c);
    let x = choose|x: int| 0 <= x < t.lanes().len() && (#[trigger] t.lanes()[x]).contains(c);
    let k = t.lanes()[x].index_of(c);
    assert(t.lane(x)[k] == c);
    assert(t.is_group_of(ids, c.link_group_id->0));
}

/// Clips that were linked are in the same group, and no other clip changes.
pub proof fn linked_clips_share_group(
    t: TimelineView,
    pick: spec_fn(ClipView) -> bool,
    group: u64,
    i: int,
    k: int,
)
    requires
        0 <= i < t.lane_count(),
        0 <= k < t.lane(i).len(),
    ensures
        ({
            let c = t.lane(i)[k];
            let d = t.regrouped(pick, Some(group)).lanes()[i][k];
            if pick(c) {
                d == (ClipView { link_group_id: Some(group), ..c })
            } else {
                d == c
            }
        }),
{
    let lanes = Seq::new(
        t.lane_count(),
        |i: int| lane_regrouped(t.lane(i), pick, Some(group)),
    );
    crate::lanes::lemma_lanes_put(t, lanes);
}

} // verus!
