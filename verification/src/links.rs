//! Link groups: clips that are edited together.
use crate::clip::{by_start, sort_clips, Clip, ClipView};
use crate::copying::views;
use crate::lanes::{lemma_lanes_put, lemma_lanes_put_back, Lane};
use crate::lists::{first, found, lemma_first_is, some};
use crate::time::{least, monus, Duration, MAX_NANOS};
use crate::tracks::{Timeline, TimelineView};
use vstd::prelude::*;

verus! {

broadcast use crate::copying::group_views;

// ---------------------------------------------------------------------------
// Groups in use
// ---------------------------------------------------------------------------

/// The largest link group of the clips; 0 where none is linked.
pub open spec fn largest_group(clips: Lane) -> int
    decreases clips.len(),
{
    if clips.len() == 0 {
        0
    } else {
        let before = largest_group(clips.drop_last());
        match clips.last().link_group_id {
            Some(g) => if g > before {
                g as int
            } else {
                before
            },
            None => before,
        }
    }
}

proof fn lemma_largest_group_range(clips: Lane)
    ensures
        0 <= largest_group(clips) <= u64::MAX,
    decreases clips.len(),
{
    if clips.len() > 0 {
        lemma_largest_group_range(clips.drop_last());
    }
}

proof fn lemma_largest_group_add(a: Lane, b: Lane)
    ensures
        largest_group(a + b) == if largest_group(a) >= largest_group(b) {
            largest_group(a)
        } else {
            largest_group(b)
        },
    decreases b.len(),
{
    if b.len() > 0 {
        lemma_largest_group_add(a, b.drop_last());
        assert((a + b).drop_last() =~= a + b.drop_last());
        assert((a + b).last() == b.last());
    } else {
        assert(a + b =~= a);
        lemma_largest_group_range(a);
    }
}

proof fn lemma_largest_group_bounds(clips: Lane, i: int)
    requires
        0 <= i < clips.len(),
        clips[i].link_group_id is Some,
    ensures
        clips[i].link_group_id->0 <= largest_group(clips),
    decreases clips.len(),
{
    if i < clips.len() - 1 {
        lemma_largest_group_bounds(clips.drop_last(), i);
    }
}

impl TimelineView {
    /// A link group that is not in use: the one after the largest.
    pub open spec fn free_group(self) -> u64 {
        least(largest_group(self.all_clips()) + 1, u64::MAX as int) as u64
    }

    /// The link group of the first clip with the given id.
    pub open spec fn group_of(self, clip_id: u64) -> Option<u64> {
        match found(self.all_clips(), |c: ClipView| c.id == clip_id) {
            Some(c) => c.link_group_id,
            None => None,
        }
    }
}

/// A new link group is larger than every group in use, so it is not in use, unless
/// the largest number is.
pub proof fn free_group_is_free(t: TimelineView, c: ClipView)
    requires
        t.all_clips().contains(c),
        largest_group(t.all_clips()) < u64::MAX,
    ensures
        c.link_group_id is Some ==> c.link_group_id->0 < t.free_group(),
{
    let i = t.all_clips().index_of(c);
    if c.link_group_id is Some {
        lemma_largest_group_bounds(t.all_clips(), i);
    }
}

pub proof fn lemma_flatten_step(lanes: Seq<Lane>, i: int)
    requires
        0 <= i < lanes.len(),
    ensures
        lanes.take(i + 1).flatten() == lanes.take(i).flatten() + lanes[i],
{
    assert(lanes.take(i + 1) =~= lanes.take(i).push(lanes[i]));
    lanes.take(i).lemma_flatten_push(lanes[i]);
}

impl Timeline {
    /// A link group that is not in use.
    pub fn allocate_next_link_group_id(&self) -> (group: u64)
        requires
            self@.lane_count() <= usize::MAX,
        ensures
            group == self@.free_group(),
    {
        let mut largest: u64 = 0;
        let n: usize = self.lane_count();
        let ghost lanes = self@.lanes();
        let mut i: usize = 0;
        assert(lanes.take(0).flatten() =~= Seq::<ClipView>::empty());
        while i < n
            invariant
                i <= n,
                n == self@.lane_count(),
                lanes == self@.lanes(),
                largest == largest_group(lanes.take(i as int).flatten()),
            decreases n - i,
        {
            let lane = self.lane(i);
            let ghost start = largest as int;
            let mut k: usize = 0;
            assert(views(lane@).take(0) =~= Seq::<ClipView>::empty());
            proof {
                lemma_largest_group_range(lanes.take(i as int).flatten());
            }
            while k < lane.len()
                invariant
                    k <= lane.len(),
                    start >= 0,
                    largest == if start >= largest_group(views(lane@).take(k as int)) {
                        start
                    } else {
                        largest_group(views(lane@).take(k as int))
                    },
                decreases lane.len() - k,
            {
                assert(views(lane@).take(k + 1).drop_last() =~= views(lane@).take(k as int));
                if let Some(g) = lane[k].link_group_id {
                    if g > largest {
                        largest = g;
                    }
                }
                k = k + 1;
            }
            proof {
                assert(views(lane@).take(k as int) =~= lanes[i as int]);
                lemma_flatten_step(lanes, i as int);
                lemma_largest_group_add(lanes.take(i as int).flatten(), lanes[i as int]);
            }
            i = i + 1;
        }
        assert(lanes.take(i as int) =~= lanes);
        if largest == u64::MAX {
            u64::MAX
        } else {
            largest + 1
        }
    }

    /// The link group of the clip with the given id.
    pub fn clip_link_group_id(&self, clip_id: u64) -> (group: Option<u64>)
        requires
            self@.lane_count() <= usize::MAX,
        ensures
            group == self@.group_of(clip_id),
    {
        let n: usize = self.lane_count();
        let ghost lanes = self@.lanes();
        let ghost p = |c: ClipView| c.id == clip_id;
        let mut i: usize = 0;
        assert(lanes.take(0).flatten() =~= Seq::<ClipView>::empty());
        while i < n
            invariant
                i <= n,
                n == self@.lane_count(),
                lanes == self@.lanes(),
                p == (|c: ClipView| c.id == clip_id),
                forall|j: int|
                    0 <= j < lanes.take(i as int).flatten().len() ==> !p(
                        #[trigger] lanes.take(i as int).flatten()[j],
                    ),
            decreases n - i,
        {
            let lane = self.lane(i);
            let ghost done = lanes.take(i as int).flatten();
            proof {
                lemma_flatten_step(lanes, i as int);
            }
            let mut k: usize = 0;
            while k < lane.len()
                invariant
                    k <= lane.len(),
                    i < n,
                    n == self@.lane_count(),
                    lanes == self@.lanes(),
                    done == lanes.take(i as int).flatten(),
                    views(lane@) == lanes[i as int],
                    p == (|c: ClipView| c.id == clip_id),
                    forall|j: int| 0 <= j < done.len() ==> !p(#[trigger] done[j]),
                    forall|j: int| 0 <= j < k ==> !p(#[trigger] views(lane@)[j]),
                decreases lane.len() - k,
            {
                if lane[k].id == clip_id {
                    proof {
                        lemma_flatten_step(lanes, i as int);
                        lemma_flatten_rest(lanes, i + 1);
                        let all = lanes.flatten();
                        let at = done.len() + k;
                        assert(all[at as int] == views(lane@)[k as int]);
                        assert forall|j: int| 0 <= j < at implies !p(#[trigger] all[j]) by {
                            if j < done.len() {
                                assert(all[j] == done[j]);
                            } else {
                                assert(all[j] == views(lane@)[j - done.len()]);
                            }
                        }
                        lemma_first_is(all, p, at as int);
                    }
                    return lane[k].link_group_id;
                }
                k = k + 1;
            }
            i = i + 1;
        }
        proof {
            assert(lanes.take(i as int) =~= lanes);
            lemma_first_is(lanes.flatten(), p, lanes.flatten().len() as int);
        }
        None
    }
}

pub proof fn lemma_flatten_rest(lanes: Seq<Lane>, i: int)
    requires
        0 <= i <= lanes.len(),
    ensures
        lanes.flatten() == lanes.take(i).flatten() + lanes.skip(i).flatten(),
    decreases lanes.len() - i,
{
    if i == lanes.len() {
        assert(lanes.take(i) =~= lanes);
        assert(lanes.skip(i).flatten() =~= Seq::<ClipView>::empty());
        assert(lanes.flatten() =~= lanes.take(i).flatten() + lanes.skip(i).flatten());
    } else {
        lemma_flatten_rest(lanes, i + 1);
        lemma_flatten_step(lanes, i);
        assert(lanes.skip(i).drop_first() =~= lanes.skip(i + 1));
        assert(lanes.flatten() =~= lanes.take(i).flatten() + lanes.skip(i).flatten());
    }
}

// ---------------------------------------------------------------------------
// Moving a group
// ---------------------------------------------------------------------------

/// A way on the timeline: back or forth by some time.
#[derive(Clone, Copy, Debug, PartialEq, Eq, Structural)]
pub struct Shift {
    pub back: bool,
    pub by: Duration,
}

impl View for Shift {
    type V = int;

    open spec fn view(&self) -> int {
        if self.back {
            -self.by@
        } else {
            self.by@
        }
    }
}

/// The way from one time to another.
pub fn way(from: Duration, to: Duration) -> (shift: Shift)
    ensures
        shift@ == to@ - from@,
{
    if to.nanos >= from.nanos {
        Shift { back: false, by: to.minus(from) }
    } else {
        Shift { back: true, by: from.minus(to) }
    }
}

/// The time that lies `delta` from `start`; never before the start of the timeline,
/// nor past the last time.
pub open spec fn moved(start: int, delta: int) -> int {
    if delta == 0 {
        start
    } else if delta < 0 {
        monus(start, -delta)
    } else {
        least(start + delta, MAX_NANOS as int)
    }
}

/// The time that lies the given way from `start`.
pub fn moved_by(start: Duration, shift: Shift) -> (t: Duration)
    ensures
        t@ == moved(start@, shift@),
{
    if shift.by.nanos == 0 {
        start
    } else if shift.back {
        start.saturating_sub(shift.by)
    } else {
        start.saturating_add(shift.by)
    }
}

/// The clip, started `delta` away.
pub open spec fn clip_moved(c: ClipView, delta: int) -> ClipView {
    ClipView { start: moved(c.start, delta), ..c }
}

/// Every clip moved by its own delta.
pub open spec fn lane_moved(lane: Lane, delta_of: spec_fn(ClipView) -> int) -> Lane {
    lane.map_values(|c: ClipView| clip_moved(c, delta_of(c)))
}

/// Every clip moved by its own delta; in order of start if any moved.
pub open spec fn lane_shifted(lane: Lane, delta_of: spec_fn(ClipView) -> int) -> Lane {
    if some(lane, |c: ClipView| delta_of(c) != 0) {
        by_start(lane_moved(lane, delta_of))
    } else {
        lane
    }
}

pub proof fn lemma_lane_moved_by_nothing(lane: Lane, delta_of: spec_fn(ClipView) -> int)
    requires
        !some(lane, |c: ClipView| delta_of(c) != 0),
    ensures
        lane_moved(lane, delta_of) == lane,
{
    let p = |c: ClipView| delta_of(c) != 0;
    assert forall|i: int| 0 <= i < lane.len() implies lane_moved(lane, delta_of)[i]
        == lane[i] by {
        assert(!p(lane[i]));
    }
    assert(lane_moved(lane, delta_of) =~= lane);
}

/// Moves every clip by the way that `way_of` gives. Says whether any moved.
pub fn move_clips<F: Fn(&Clip) -> Shift>(
    lane: &mut Vec<Clip>,
    way_of: F,
    Ghost(delta_of): Ghost<spec_fn(ClipView) -> int>,
) -> (changed: bool)
    requires
        forall|c: &Clip| #[trigger] call_requires(way_of, (c,)),
        forall|c: &Clip, shift: Shift| #[trigger]
            call_ensures(way_of, (c,), shift) ==> shift@ == delta_of(c@),
    ensures
        views(final(lane)@) == lane_moved(views(old(lane)@), delta_of),
        changed == some(views(old(lane)@), |c: ClipView| delta_of(c) != 0),
{
    let ghost before = views(lane@);
    let ghost p = |c: ClipView| delta_of(c) != 0;
    let mut changed = false;
    let mut i: usize = 0;
    while i < lane.len()
        invariant
            i <= lane.len(),
            lane.len() == before.len(),
            p == (|c: ClipView| delta_of(c) != 0),
            forall|c: &Clip| #[trigger] call_requires(way_of, (c,)),
            forall|c: &Clip, shift: Shift| #[trigger]
                call_ensures(way_of, (c,), shift) ==> shift@ == delta_of(c@),
            forall|j: int|
                0 <= j < i ==> (#[trigger] views(lane@)[j]) == clip_moved(
                    before[j],
                    delta_of(before[j]),
                ),
            forall|j: int| i <= j < before.len() ==> (#[trigger] views(lane@)[j]) == before[j],
            changed ==> some(before, p),
            !changed ==> forall|j: int| 0 <= j < i ==> !p(#[trigger] before[j]),
        decreases lane.len() - i,
    {
        assert(views(lane@)[i as int] == before[i as int]);
        let shift = way_of(&lane[i]);
        if shift.by.nanos != 0 {
            assert(p(before[i as int]));
            changed = true;
        }
        let start = moved_by(lane[i].start, shift);
        let ghost mid = lane@;
        lane[i].start = start;
        assert(lane@ =~= mid.update(i as int, lane@[i as int]));
        i = i + 1;
    }
    assert(views(lane@) =~= lane_moved(before, delta_of));
    changed
}

/// The move of a clip that the move of its group asks for. The clip with the
/// excluded id stays.
pub open spec fn group_delta(group: u64, excluded: u64, delta: int) -> spec_fn(ClipView) -> int {
    |c: ClipView|
        if c.id != excluded && c.link_group_id == Some(group) {
            delta
        } else {
            0
        }
}

/// Whether the clip goes along with its group.
pub open spec fn goes_along(c: ClipView, group: u64, excluded: u64) -> bool {
    c.id != excluded && c.link_group_id == Some(group)
}

/// The earliest start of the clips of a group, where there are any.
pub open spec fn earliest(clips: Lane, group: u64, excluded: u64) -> Option<int>
    decreases clips.len(),
{
    if clips.len() == 0 {
        None
    } else {
        let before = earliest(clips.drop_last(), group, excluded);
        let c = clips.last();
        if goes_along(c, group, excluded) {
            match before {
                Some(t) => Some(least(t, c.start)),
                None => Some(c.start),
            }
        } else {
            before
        }
    }
}

proof fn lemma_earliest_add(a: Lane, b: Lane, group: u64, excluded: u64)
    ensures
        earliest(a + b, group, excluded) == match (
            earliest(a, group, excluded),
            earliest(b, group, excluded),
        ) {
            (Some(s), Some(t)) => Some(least(s, t)),
            (Some(s), None) => Some(s),
            (None, e) => e,
        },
    decreases b.len(),
{
    if b.len() > 0 {
        lemma_earliest_add(a, b.drop_last(), group, excluded);
        assert((a + b).drop_last() =~= a + b.drop_last());
        assert((a + b).last() == b.last());
    } else {
        assert(a + b =~= a);
    }
}

/// No clip of the group starts before the earliest.
pub proof fn lemma_earliest(clips: Lane, group: u64, excluded: u64)
    ensures
        forall|i: int|
            0 <= i < clips.len() && goes_along(#[trigger] clips[i], group, excluded)
                ==> earliest(clips, group, excluded) is Some && earliest(
                clips,
                group,
                excluded,
            )->0 <= clips[i].start,
    decreases clips.len(),
{
    if clips.len() > 0 {
        lemma_earliest(clips.drop_last(), group, excluded);
        assert forall|i: int|
            0 <= i < clips.len() && goes_along(#[trigger] clips[i], group, excluded) implies earliest(
            clips,
            group,
            excluded,
        ) is Some && earliest(clips, group, excluded)->0 <= clips[i].start by {
            if i < clips.len() - 1 {
                assert(clips.drop_last()[i] == clips[i]);
            }
        }
    }
}

impl TimelineView {
    /// The move of a group, cut short where a clip would go before the start.
    pub open spec fn allowed_delta(self, group: u64, excluded: u64, delta: int) -> int {
        match earliest(self.all_clips(), group, excluded) {
            Some(t) => if delta < -t {
                -t
            } else {
                delta
            },
            None => 0,
        }
    }

    /// The timeline with a group moved as one.
    #[verifier::opaque]
    pub open spec fn group_moved(self, group: u64, delta: int, except: Option<u64>) -> TimelineView {
        let excluded = except_id(except);
        let allowed = self.allowed_delta(group, excluded, delta);
        if delta == 0 || allowed == 0 {
            self
        } else {
            let delta_of = group_delta(group, excluded, allowed);
            self.with_lanes(
                Seq::new(
                    self.lane_count(),
                    |i: int|
                        if i == 0 {
                            by_start(lane_moved(self.lane(0), delta_of))
                        } else {
                            lane_shifted(self.lane(i), delta_of)
                        },
                ),
            )
        }
    }
}

/// The id of the clip that stays. Where none is named it is the largest id.
pub open spec fn except_id(except: Option<u64>) -> u64 {
    match except {
        Some(id) => id,
        None => u64::MAX,
    }
}

impl Timeline {
    /// The earliest start of the clips of a group.
    fn earliest_start(&self, group: u64, excluded: u64) -> (start: Option<Duration>)
        requires
            self@.lane_count() <= usize::MAX,
        ensures
            start is Some == earliest(self@.all_clips(), group, excluded) is Some,
            start is Some ==> start->0@ == earliest(self@.all_clips(), group, excluded)->0,
    {
        let n: usize = self.lane_count();
        let ghost lanes = self@.lanes();
        let mut start: Option<Duration> = None;
        let mut i: usize = 0;
        assert(lanes.take(0).flatten() =~= Seq::<ClipView>::empty());
        while i < n
            invariant
                i <= n,
                n == self@.lane_count(),
                lanes == self@.lanes(),
                start is Some == earliest(lanes.take(i as int).flatten(), group, excluded) is Some,
                start is Some ==> start->0@ == earliest(
                    lanes.take(i as int).flatten(),
                    group,
                    excluded,
                )->0,
            decreases n - i,
        {
            let lane = self.lane(i);
            let ghost done = lanes.take(i as int).flatten();
            let mut k: usize = 0;
            assert(done + views(lane@).take(0) =~= done);
            while k < lane.len()
                invariant
                    k <= lane.len(),
                    start is Some == earliest(
                        done + views(lane@).take(k as int),
                        group,
                        excluded,
                    ) is Some,
                    start is Some ==> start->0@ == earliest(
                        done + views(lane@).take(k as int),
                        group,
                        excluded,
                    )->0,
                decreases lane.len() - k,
            {
                proof {
                    let longer = done + views(lane@).take(k + 1);
                    assert(longer.drop_last() =~= done + views(lane@).take(k as int));
                    assert(longer.last() == lane@[k as int]@);
                }
                if lane[k].id != excluded && lane[k].link_group_id == Some(group) {
                    start = match start {
                        Some(t) => Some(t.min(lane[k].start)),
                        None => Some(lane[k].start),
                    };
                }
                k = k + 1;
            }
            proof {
                assert(views(lane@).take(k as int) =~= lanes[i as int]);
                lemma_flatten_step(lanes, i as int);
            }
            i = i + 1;
        }
        assert(lanes.take(i as int) =~= lanes);
        start
    }

    /// Moves all clips of a group the same way, but no clip before the start.
    pub fn sync_linked_group_delta(
        &mut self,
        link_group_id: u64,
        requested: Shift,
        exclude_clip_id: Option<u64>,
    )
        requires
            old(self)@.lane_count() <= usize::MAX,
        ensures
            final(self)@ == old(self)@.group_moved(link_group_id, requested@, exclude_clip_id),
    {
        reveal(TimelineView::group_moved);
        if requested.by.nanos == 0 {
            return;
        }
        let excluded: u64 = match exclude_clip_id {
            Some(id) => id,
            None => u64::MAX,
        };
        let earliest = match self.earliest_start(link_group_id, excluded) {
            Some(t) => t,
            None => return,
        };
        let allowed = if requested.back && requested.by.nanos > earliest.nanos {
            Shift { back: true, by: earliest }
        } else {
            requested
        };
        if allowed.by.nanos == 0 {
            return;
        }
        let ghost base = self@;
        let ghost delta_of = group_delta(link_group_id, excluded, allowed@);
        assert(allowed@ == base.allowed_delta(link_group_id, excluded, requested@));
        let n: usize = self.lane_count();
        let ghost mut now = base.lanes();
        let mut i: usize = 0;
        proof {
            lemma_lanes_put_back(base);
        }
        while i < n
            invariant
                i <= n,
                n == base.lane_count(),
                now.len() == n,
                self@ == base.with_lanes(now),
                delta_of == group_delta(link_group_id, excluded, allowed@),
                forall|j: int|
                    0 <= j < i ==> #[trigger] now[j] == if j == 0 {
                        by_start(lane_moved(base.lane(0), delta_of))
                    } else {
                        lane_shifted(base.lane(j), delta_of)
                    },
                forall|j: int| i <= j < n ==> #[trigger] now[j] == base.lane(j),
            decreases n - i,
        {
            proof {
                lemma_lanes_put(base, now);
            }
            let ghost before = now[i as int];
            let lane = self.lane_mut(i);
            let way_of = |c: &Clip| -> (shift: Shift)
                ensures
                    shift@ == delta_of(c@),
            {
                if c.id != excluded && c.link_group_id == Some(link_group_id) {
                    allowed
                } else {
                    Shift { back: false, by: Duration::zero() }
                }
            };
            let changed = move_clips(lane, way_of, Ghost(delta_of));
            if i == 0 || changed {
                sort_clips(lane);
            } else {
                proof {
                    lemma_lane_moved_by_nothing(before, delta_of);
                }
            }
            proof {
                now = now.update(i as int, views(lane@));
            }
            i = i + 1;
        }
        proof {
            assert(now =~= Seq::new(
                base.lane_count(),
                |i: int|
                    if i == 0 {
                        by_start(lane_moved(base.lane(0), delta_of))
                    } else {
                        lane_shifted(base.lane(i), delta_of)
                    },
            ));
        }
    }
}

proof fn lemma_earliest_not_before_start(clips: Lane, group: u64, excluded: u64)
    requires
        forall|k: int| 0 <= k < clips.len() ==> (#[trigger] clips[k]).start >= 0,
    ensures
        earliest(clips, group, excluded) matches Some(t) ==> t >= 0,
    decreases clips.len(),
{
    if clips.len() > 0 {
        let front = clips.drop_last();
        assert forall|k: int| 0 <= k < front.len() implies (#[trigger] front[k]).start >= 0 by {
            assert(front[k] == clips[k]);
        }
        lemma_earliest_not_before_start(front, group, excluded);
        assert(clips[clips.len() - 1].start >= 0);
    }
}

/// Linked clips keep their distance when their group is moved: all that go along move by
/// the same way, and none past the start of the timeline.
pub proof fn linked_clips_keep_distance(
    t: TimelineView,
    group: u64,
    excluded: u64,
    delta: int,
    a: ClipView,
    b: ClipView,
)
    requires
        t.all_clips().contains(a),
        t.all_clips().contains(b),
        goes_along(a, group, excluded),
        goes_along(b, group, excluded),
        forall|c: ClipView| #[trigger] t.all_clips().contains(c) ==> c.start >= 0,
        a.start + delta <= MAX_NANOS,
        b.start + delta <= MAX_NANOS,
    ensures
        ({
            let way = group_delta(group, excluded, t.allowed_delta(group, excluded, delta));
            let x = clip_moved(a, way(a)).start;
            let y = clip_moved(b, way(b)).start;
            &&& x - y == a.start - b.start
            &&& 0 <= x && 0 <= y
            &&& t.allowed_delta(group, excluded, delta) == delta ==> x == a.start + delta
        }),
{
    let all = t.all_clips();
    lemma_earliest(all, group, excluded);
    assert forall|k: int| 0 <= k < all.len() implies (#[trigger] all[k]).start >= 0 by {
        assert(all.contains(all[k]));
    }
    lemma_earliest_not_before_start(all, group, excluded);
    let i = choose|i: int| 0 <= i < all.len() && all[i] == a;
    let j = choose|j: int| 0 <= j < all.len() && all[j] == b;
    assert(goes_along(all[i], group, excluded));
    assert(goes_along(all[j], group, excluded));
}

} // verus!
