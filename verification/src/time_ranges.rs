//! Stretches of time, and what becomes of times when stretches are taken out.
use crate::lists::retain_by;
use crate::order::{in_order, ordered, ordered_is_sorted_permutation, sort_by_time, Timed};
use crate::time::{least, monus, Duration};
use vstd::prelude::*;

verus! {

/// A stretch of time; the end does not belong to it.
#[derive(Debug, Clone, Copy, PartialEq, Eq, Structural)]
pub struct TimeRange {
    pub start: Duration,
    pub end: Duration,
}

impl Timed for TimeRange {
    open spec fn at(&self) -> int {
        self.start@
    }

    fn time(&self) -> (t: Duration) {
        self.start
    }
}

impl TimeRange {
    /// Whether there is anything between its start and its end.
    pub open spec fn is_proper(self) -> bool {
        self.start@ < self.end@
    }

    /// Whether a time belongs to it.
    pub open spec fn covers(self, t: int) -> bool {
        self.start@ <= t < self.end@
    }
}

/// Stretches with one more, which starts no earlier than the others: it is joined to
/// the last one if they meet.
pub open spec fn joined_range(merged: Seq<TimeRange>, r: TimeRange) -> Seq<TimeRange> {
    if merged.len() > 0 && r.start@ <= merged.last().end@ {
        if r.end@ > merged.last().end@ {
            merged.drop_last().push(TimeRange { start: merged.last().start, end: r.end })
        } else {
            merged
        }
    } else {
        merged.push(r)
    }
}

/// Ordered stretches with those joined that meet.
pub open spec fn joined_ranges(ranges: Seq<TimeRange>) -> Seq<TimeRange>
    decreases ranges.len(),
{
    if ranges.len() == 0 {
        ranges
    } else {
        joined_range(joined_ranges(ranges.drop_last()), ranges.last())
    }
}

/// The stretches in order, without empty ones and with those joined that meet.
pub open spec fn merged_ranges(ranges: Seq<TimeRange>) -> Seq<TimeRange> {
    joined_ranges(
        ordered(ranges.filter(|r: TimeRange| r.is_proper()), |r: TimeRange| r.at()),
    )
}

/// Whether stretches are in order and do not meet.
pub open spec fn apart(ranges: Seq<TimeRange>) -> bool {
    &&& forall|i: int| 0 <= i < ranges.len() ==> (#[trigger] ranges[i]).is_proper()
    &&& forall|i: int, j: int|
        0 <= i < j < ranges.len() ==> (#[trigger] ranges[i]).end@ < (#[trigger] ranges[j]).start@
}

/// Whether one of the stretches covers a time.
pub open spec fn covered(ranges: Seq<TimeRange>, t: int) -> bool {
    exists|i: int| 0 <= i < ranges.len() && (#[trigger] ranges[i]).covers(t)
}

/// The stretches in order, without empty ones and with those joined that meet.
pub fn merge_time_ranges(ranges: Vec<TimeRange>) -> (merged: Vec<TimeRange>)
    ensures
        merged@ == merged_ranges(ranges@),
{
    let mut ranges = ranges;
    let proper = |r: &TimeRange| -> (yes: bool)
        ensures
            yes == r.is_proper(),
    {
        r.start.nanos < r.end.nanos
    };
    retain_by(&mut ranges, proper, Ghost(|r: TimeRange| r.is_proper()));
    sort_by_time(&mut ranges);
    let mut merged: Vec<TimeRange> = Vec::new();
    let mut i: usize = 0;
    assert(ranges@.take(0) =~= seq![]);
    while i < ranges.len()
        invariant
            i <= ranges.len(),
            merged@ == joined_ranges(ranges@.take(i as int)),
        decreases ranges.len() - i,
    {
        assert(ranges@.take(i + 1).drop_last() =~= ranges@.take(i as int));
        assert(ranges@.take(i + 1).last() == ranges@[i as int]);
        let r = ranges[i];
        let n: usize = merged.len();
        if n > 0 && r.start.nanos <= merged[n - 1].end.nanos {
            if r.end.nanos > merged[n - 1].end.nanos {
                let ghost before = merged@;
                let longer = TimeRange { start: merged[n - 1].start, end: r.end };
                merged.set(n - 1, longer);
                assert(merged@ =~= before.drop_last().push(longer));
            }
        } else {
            merged.push(r);
        }
        i += 1;
    }
    assert(ranges@.take(i as int) =~= ranges@);
    merged
}

proof fn lemma_joined(ranges: Seq<TimeRange>)
    requires
        in_order(ranges, |r: TimeRange| r.at()),
        forall|i: int| 0 <= i < ranges.len() ==> (#[trigger] ranges[i]).is_proper(),
    ensures
        apart(joined_ranges(ranges)),
        ranges.len() > 0 ==> joined_ranges(ranges).len() > 0 && joined_ranges(ranges).last().start@
            <= ranges.last().start@,
        forall|t: int| #[trigger] covered(joined_ranges(ranges), t) == covered(ranges, t),
    decreases ranges.len(),
{
    let key = |r: TimeRange| r.at();
    if ranges.len() > 0 {
        let front = ranges.drop_last();
        let r = ranges.last();
        assert forall|i: int, j: int| 0 <= i <= j < front.len() implies key(#[trigger] front[i])
            <= key(#[trigger] front[j]) by {
            assert(front[i] == ranges[i] && front[j] == ranges[j]);
        }
        assert forall|i: int| 0 <= i < front.len() implies (#[trigger] front[i]).is_proper() by {
            assert(front[i] == ranges[i]);
        }
        lemma_joined(front);
        let m = joined_ranges(front);
        let out = joined_range(m, r);
        if front.len() > 0 {
            assert(key(ranges[ranges.len() - 2]) <= key(ranges[ranges.len() - 1]));
            assert(front.last() == ranges[ranges.len() - 2]);
        }
        if m.len() > 0 && front.len() == 0 {
            assert(m.len() == 0);
        }
        assert(apart(out)) by {
            assert forall|i: int, j: int| 0 <= i < j < out.len() implies (#[trigger] out[i]).end@ < (
            #[trigger] out[j]).start@ by {
                if i < m.len() && j < m.len() {
                    assert(m[i].end@ < m[j].start@);
                } else {
                    assert(m.last().end@ < r.start@);
                    if i < m.len() - 1 {
                        assert(m[i].end@ < m[m.len() - 1].start@);
                        assert(m[m.len() - 1].is_proper());
                    }
                }
            }
            assert forall|i: int| 0 <= i < out.len() implies (#[trigger] out[i]).is_proper() by {
                if i < m.len() {
                    assert(m[i].is_proper());
                } else {
                    assert(ranges[ranges.len() - 1].is_proper());
                }
            }
        }
        assert forall|t: int| #[trigger] covered(out, t) == covered(ranges, t) by {
            assert(covered(m, t) == covered(front, t));
            if covered(ranges, t) {
                let i = choose|i: int| 0 <= i < ranges.len() && (#[trigger] ranges[i]).covers(t);
                if i < front.len() {
                    assert(front[i].covers(t));
                    let k = choose|k: int| 0 <= k < m.len() && (#[trigger] m[k]).covers(t);
                    assert(out[k].covers(t));
                } else {
                    assert(out[out.len() - 1].covers(t));
                }
            }
            if covered(out, t) {
                let k = choose|k: int| 0 <= k < out.len() && (#[trigger] out[k]).covers(t);
                if k < m.len() && m[k].covers(t) {
                    assert(covered(m, t));
                    let i = choose|i: int| 0 <= i < front.len() && (#[trigger] front[i]).covers(t);
                    assert(ranges[i].covers(t));
                } else {
                    assert(ranges[ranges.len() - 1].covers(t));
                }
            }
        }
    }
}

proof fn lemma_filtered_was_there(s: Seq<TimeRange>, p: spec_fn(TimeRange) -> bool, x: TimeRange)
    requires
        s.filter(p).contains(x),
    ensures
        s.contains(x),
    decreases s.len(),
{
    reveal(Seq::filter);
    if s.len() > 0 {
        let front = s.drop_last();
        if front.filter(p).contains(x) {
            lemma_filtered_was_there(front, p, x);
            let i = choose|i: int| 0 <= i < front.len() && front[i] == x;
            assert(s[i] == x);
        } else {
            let i = choose|i: int| 0 <= i < s.filter(p).len() && s.filter(p)[i] == x;
            if i < front.filter(p).len() {
                assert(front.filter(p)[i] == x);
            }
            assert(s[s.len() - 1] == x);
        }
    }
}

/// Merged stretches are in order and do not meet, and together they cover just what the
/// stretches did.
pub proof fn merging_keeps_coverage(ranges: Seq<TimeRange>, t: int)
    ensures
        apart(merged_ranges(ranges)),
        covered(merged_ranges(ranges), t) == covered(ranges, t),
{
    let p = |r: TimeRange| r.is_proper();
    let key = |r: TimeRange| r.at();
    let kept = ranges.filter(p);
    let sorted = ordered(kept, key);
    ordered_is_sorted_permutation(kept, key);
    broadcast use {vstd::seq_lib::group_to_multiset_ensures, vstd::seq_lib::group_filter_ensures};

    assert forall|i: int| 0 <= i < sorted.len() implies (#[trigger] sorted[i]).is_proper() && exists|
        j: int,
    | 0 <= j < ranges.len() && ranges[j] == sorted[i] by {
        assert(sorted.to_multiset().count(sorted[i]) > 0) by {
            assert(sorted.contains(sorted[i]));
        }
        assert(kept.contains(sorted[i]));
        let j = choose|j: int| 0 <= j < kept.len() && kept[j] == sorted[i];
        assert(p(kept[j]));
        lemma_filtered_was_there(ranges, p, kept[j]);
    }
    lemma_joined(sorted);
    if covered(ranges, t) {
        let i = choose|i: int| 0 <= i < ranges.len() && (#[trigger] ranges[i]).covers(t);
        assert(p(ranges[i]));
        assert(kept.contains(ranges[i]));
        assert(kept.to_multiset().count(ranges[i]) > 0);
        assert(sorted.contains(ranges[i]));
        let k = choose|k: int| 0 <= k < sorted.len() && sorted[k] == ranges[i];
        assert(sorted[k].covers(t));
        assert(covered(sorted, t));
    }
    if covered(sorted, t) {
        let k = choose|k: int| 0 <= k < sorted.len() && (#[trigger] sorted[k]).covers(t);
        let j = choose|j: int| 0 <= j < ranges.len() && ranges[j] == sorted[k];
        assert(ranges[j].covers(t));
    }
}

/// How much of the stretches is before a time.
pub open spec fn removed_before(ranges: Seq<TimeRange>, t: int) -> int
    decreases ranges.len(),
{
    if ranges.len() == 0 {
        0
    } else {
        let r = ranges.last();
        removed_before(ranges.drop_last(), t) + monus(least(t, r.end@), r.start@)
    }
}

/// Where a time is after the stretches have been taken out; a time in one of them is
/// where it started.
pub open spec fn remapped(t: int, ranges: Seq<TimeRange>) -> int {
    t - removed_before(ranges, t)
}

proof fn lemma_removed(ranges: Seq<TimeRange>, a: int, b: int)
    requires
        apart(ranges),
        0 <= a <= b,
    ensures
        ranges.len() > 0 ==> 0 <= removed_before(ranges, b) - removed_before(ranges, a) <= least(
            b,
            ranges.last().end@,
        ) - least(a, ranges.last().end@),
        ranges.len() == 0 ==> removed_before(ranges, b) == 0,
        0 <= removed_before(ranges, a) <= a,
    decreases ranges.len(),
{
    if ranges.len() > 0 {
        let front = ranges.drop_last();
        assert(apart(front)) by {
            assert forall|i: int| 0 <= i < front.len() implies (#[trigger] front[i]).is_proper() by {
                assert(front[i] == ranges[i]);
            }
            assert forall|i: int, j: int| 0 <= i < j < front.len() implies (
            #[trigger] front[i]).end@ < (#[trigger] front[j]).start@ by {
                assert(front[i] == ranges[i] && front[j] == ranges[j]);
            }
        }
        lemma_removed(front, a, b);
        lemma_removed(front, 0, a);
        assert(ranges[ranges.len() - 1].is_proper());
        if front.len() > 0 {
            assert(ranges[ranges.len() - 2].end@ < ranges[ranges.len() - 1].start@);
            assert(front.last() == ranges[ranges.len() - 2]);
        }
        lemma_nothing_removed(ranges);
        lemma_nothing_removed(front);
    }
}

proof fn lemma_nothing_removed(ranges: Seq<TimeRange>)
    ensures
        removed_before(ranges, 0) == 0,
    decreases ranges.len(),
{
    if ranges.len() > 0 {
        lemma_nothing_removed(ranges.drop_last());
    }
}

/// Taking stretches out never moves a time later and keeps the order of times.
pub proof fn remapping_keeps_order(ranges: Seq<TimeRange>, a: int, b: int)
    requires
        apart(ranges),
        0 <= a <= b,
    ensures
        0 <= remapped(a, ranges) <= remapped(b, ranges),
        remapped(b, ranges) <= b,
{
    lemma_removed(ranges, a, b);
    lemma_removed(ranges, 0, b);
    lemma_nothing_removed(ranges);
}

proof fn lemma_removed_up_to(ranges: Seq<TimeRange>, n: int, t: int)
    requires
        apart(ranges),
        0 <= n <= ranges.len(),
        n < ranges.len() ==> t < ranges[n].start@,
    ensures
        removed_before(ranges, t) == removed_before(ranges.take(n), t),
    decreases ranges.len() - n,
{
    if n < ranges.len() {
        if n + 1 < ranges.len() {
            assert(ranges[n].end@ < ranges[n + 1].start@);
        }
        assert(ranges[n].is_proper());
        lemma_removed_up_to(ranges, n + 1, t);
        assert(ranges.take(n + 1).drop_last() =~= ranges.take(n));
        assert(ranges.take(n + 1).last() == ranges[n]);
    } else {
        assert(ranges.take(n) =~= ranges);
    }
}

/// Where a time is after the stretches have been taken out.
pub fn remap_time_after_removed_ranges(t: Duration, ranges: &Vec<TimeRange>) -> (d: Duration)
    requires
        apart(ranges@),
    ensures
        d@ == remapped(t@, ranges@),
{
    let mut removed: u128 = 0;
    let mut i: usize = 0;
    assert(ranges@.take(0) =~= seq![]);
    while i < ranges.len()
        invariant
            i <= ranges.len(),
            apart(ranges@),
            removed == removed_before(ranges@.take(i as int), t@),
            removed <= t@,
            i > 0 ==> ranges@[i - 1].end@ <= t@,
        decreases ranges.len() - i,
    {
        let r = ranges[i];
        proof {
            assert(r.is_proper());
            assert(ranges@.take(i + 1).drop_last() =~= ranges@.take(i as int));
            assert(ranges@.take(i + 1).last() == r);
            lemma_apart_take(ranges@, i + 1);
            lemma_apart_take(ranges@, i as int);
            lemma_removed(ranges@.take(i + 1), t@, t@);
            lemma_removed(ranges@.take(i as int), 0, t@);
            lemma_nothing_removed(ranges@.take(i as int));
            if i > 0 {
                assert(ranges@.take(i as int).last() == ranges@[i - 1]);
                assert(ranges@[i - 1].end@ < ranges@[i as int].start@);
            }
        }
        if t.nanos < r.start.nanos {
            proof {
                lemma_removed_up_to(ranges@, i as int, t@);
            }
            return Duration { nanos: t.nanos - removed };
        }
        if t.nanos >= r.end.nanos {
            removed = removed + (r.end.nanos - r.start.nanos);
            i += 1;
        } else {
            proof {
                if i + 1 < ranges.len() {
                    assert(r.end@ < ranges@[i + 1].start@);
                }
                lemma_removed_up_to(ranges@, i + 1, t@);
            }
            return Duration { nanos: r.start.nanos - removed };
        }
    }
    assert(ranges@.take(i as int) =~= ranges@);
    Duration { nanos: t.nanos - removed }
}

proof fn lemma_apart_take(ranges: Seq<TimeRange>, n: int)
    requires
        apart(ranges),
        0 <= n <= ranges.len(),
    ensures
        apart(ranges.take(n)),
{
    let front = ranges.take(n);
    assert forall|i: int| 0 <= i < front.len() implies (#[trigger] front[i]).is_proper() by {
        assert(front[i] == ranges[i]);
    }
    assert forall|i: int, j: int| 0 <= i < j < front.len() implies (#[trigger] front[i]).end@ < (
    #[trigger] front[j]).start@ by {
        assert(front[i] == ranges[i] && front[j] == ranges[j]);
    }
}

} // verus!
