//! Trimming clips of the main track to make a dissolve possible.
use crate::clip::{by_start, sort_clips, Clip, ClipView};
use crate::clip_effects::seconds;
use crate::copying::{optional, views};
use crate::effect::ZERO;
use crate::errors::GlobalStateError;
use crate::lanes::Lane;
use crate::moves::{find_clip, pack, packed, place_of};
use crate::order::ordered_is_sorted_permutation;
use crate::scalar::Scalar;
use crate::state::{saving_keeps_all_else, GlobalState, PendingTrimToFit, StateView};
use crate::text::{joined3, owned};
use crate::time::{least, monus, Duration, MAX_NANOS};
use crate::tracks::{Timeline, TimelineView};
use crate::transitions::{
    dissolve_lane, handle_after, is_no_transition, lane_dissolved, longest_dissolve,
    NO_TRANSITION,
};
use vstd::prelude::*;

verus! {

broadcast use crate::copying::group_views;

/// What is left of the files of two clips, and how far the clips can be trimmed and
/// have been.
#[derive(Clone, Copy, Debug, PartialEq, Eq, Structural)]
pub struct DissolveRoom {
    /// What the left clip's file has left behind what is shown.
    pub left_post: Duration,
    /// What the right clip's file has in front of what is shown.
    pub right_pre: Duration,
    pub left_max_trim: Duration,
    pub right_max_trim: Duration,
    pub left_trim_out: Duration,
    pub right_trim_in: Duration,
}

/// How far two clips are to be restored and trimmed; no time at all is not at all.
#[derive(Clone, Copy, Debug, PartialEq, Eq, Structural)]
pub struct TrimAmounts {
    pub restore_left: Duration,
    pub restore_right: Duration,
    pub trim_left: Duration,
    pub trim_right: Duration,
}

impl TrimAmounts {
    /// Whether there is anything to do.
    pub open spec fn any(self) -> bool {
        self.restore_left@ > 0 || self.restore_right@ > 0 || self.trim_left@ > 0
            || self.trim_right@ > 0
    }

    /// The trims alone.
    pub open spec fn only_trims(self) -> TrimAmounts {
        TrimAmounts {
            restore_left: Duration { nanos: 0 },
            restore_right: Duration { nanos: 0 },
            ..self
        }
    }
}

/// The shortest length that a trim leaves: a tenth of a second.
pub const SHORTEST_TRIMMED: u128 = 100_000_000;

/// Why there is no pair.
#[derive(Clone, Copy, Debug, PartialEq, Eq, Structural)]
pub enum NoPair {
    /// One of the clips is gone.
    Gone,
    /// The two are one clip.
    Same,
}

/// The places of the two clips in the row, the first in front.
pub open spec fn pair_places(lane: Lane, left_id: u64, right_id: u64) -> Result<
    (int, int),
    NoPair,
> {
    let a = place_of(lane, left_id);
    let b = place_of(lane, right_id);
    if a >= lane.len() || b >= lane.len() {
        Err(NoPair::Gone)
    } else if a == b {
        Err(NoPair::Same)
    } else if a < b {
        Ok((a, b))
    } else {
        Ok((b, a))
    }
}

/// The room that two clips have for a dissolve.
pub open spec fn room_of(left: ClipView, right: ClipView) -> DissolveRoom {
    DissolveRoom {
        left_post: Duration::of(handle_after(left)),
        right_pre: Duration::of(right.source_in),
        left_max_trim: Duration::of(monus(left.duration, SHORTEST_TRIMMED as int)),
        right_max_trim: Duration::of(monus(right.duration, SHORTEST_TRIMMED as int)),
        left_trim_out: Duration::of(left.dissolve_trim_out),
        right_trim_in: Duration::of(right.dissolve_trim_in),
    }
}

/// A sum that stays a time.
pub open spec fn plus(a: int, b: int) -> int {
    if b == 0 {
        a
    } else {
        least(a + b, MAX_NANOS as int)
    }
}

/// The left clip, restored and then trimmed at its end.
pub open spec fn left_trimmed(c: ClipView, a: TrimAmounts) -> ClipView {
    ClipView {
        duration: monus(plus(c.duration, a.restore_left@), a.trim_left@),
        dissolve_trim_out: plus(monus(c.dissolve_trim_out, a.restore_left@), a.trim_left@),
        ..c
    }
}

/// The right clip, restored and then trimmed at its start.
pub open spec fn right_trimmed(c: ClipView, a: TrimAmounts) -> ClipView {
    ClipView {
        source_in: plus(monus(c.source_in, a.restore_right@), a.trim_right@),
        duration: monus(plus(c.duration, a.restore_right@), a.trim_right@),
        dissolve_trim_in: plus(monus(c.dissolve_trim_in, a.restore_right@), a.trim_right@),
        ..c
    }
}

/// The row with two clips restored and trimmed, and then all one behind the other;
/// unchanged where there is nothing to do.
#[verifier::opaque]
pub open spec fn lane_trimmed(lane: Lane, left: int, right: int, a: TrimAmounts) -> Lane {
    if a.any() {
        packed(
            by_start(
                lane.update(left, left_trimmed(lane[left], a)).update(
                    right,
                    right_trimmed(lane[right], a),
                ),
            ),
        )
    } else {
        lane
    }
}

/// What a clip loses of its length at its front it gains in front of what is shown,
/// so restoring what was trimmed gives the clip back.
pub proof fn restoring_undoes_trimming(c: ClipView, d: Duration)
    requires
        0 < d@ <= c.duration,
        c.source_in + d@ <= MAX_NANOS,
        c.duration <= MAX_NANOS,
        c.dissolve_trim_in + d@ <= MAX_NANOS,
        c.dissolve_trim_out + d@ <= MAX_NANOS,
        c.source_in >= 0,
        c.dissolve_trim_in >= 0,
        c.dissolve_trim_out >= 0,
    ensures
        ({
            let none = Duration { nanos: 0 };
            let trim = TrimAmounts {
                restore_left: none,
                restore_right: none,
                trim_left: d,
                trim_right: d,
            };
            let restore = TrimAmounts {
                restore_left: d,
                restore_right: d,
                trim_left: none,
                trim_right: none,
            };
            &&& right_trimmed(right_trimmed(c, trim), restore) == c
            &&& left_trimmed(left_trimmed(c, trim), restore) == c
        }),
{
}

impl TrimAmounts {
    /// Whether nothing is trimmed or restored past the room that there is.
    pub open spec fn within(self, room: DissolveRoom) -> bool {
        self.trim_left@ <= room.left_max_trim@ && self.trim_right@ <= room.right_max_trim@
            && self.restore_left@ <= room.left_trim_out@ && self.restore_right@
            <= room.right_trim_in@ && self.restore_right@ <= room.right_pre@
    }
}

/// Whether the times of a clip, and what was trimmed of it, are times and can be added up.
pub open spec fn times_add_up(c: ClipView) -> bool {
    0 <= c.source_in && 0 <= c.duration && 0 <= c.dissolve_trim_in && 0 <= c.dissolve_trim_out
        && c.source_in + c.duration <= MAX_NANOS && c.duration + c.dissolve_trim_out <= MAX_NANOS
        && c.duration + c.dissolve_trim_in <= MAX_NANOS
}

/// Whether the second is the first with its end moved: what is shown and what was trimmed there
/// are as long together as before, and it is not shorter than a trim may leave it.
pub open spec fn end_moved(c: ClipView, d: ClipView) -> bool {
    &&& d.duration + d.dissolve_trim_out == c.duration + c.dissolve_trim_out
    &&& d.duration >= least(c.duration, SHORTEST_TRIMMED as int)
    &&& d == (ClipView {
        start: d.start,
        duration: d.duration,
        dissolve_trim_out: d.dissolve_trim_out,
        ..c
    })
}

/// Whether the second is the first with its front moved: what is shown and what was trimmed there
/// are as long together as before, and what was trimmed begins at the same place of the file.
pub open spec fn front_moved(c: ClipView, d: ClipView) -> bool {
    &&& d.duration + d.dissolve_trim_in == c.duration + c.dissolve_trim_in
    &&& d.source_in - d.dissolve_trim_in == c.source_in - c.dissolve_trim_in
    &&& d.duration >= least(c.duration, SHORTEST_TRIMMED as int)
    &&& d == (ClipView {
        start: d.start,
        source_in: d.source_in,
        duration: d.duration,
        dissolve_trim_in: d.dissolve_trim_in,
        ..c
    })
}

/// Trims within the room that there is move the end of the left clip and the front of the right
/// one and keep all else: what a clip loses it can be given back, and of the others nothing but
/// their start changes.
pub proof fn trims_keep_what_was_cut(lane: Lane, left: int, right: int, a: TrimAmounts, i: int)
    requires
        0 <= left < right < lane.len(),
        0 <= i < lane.len(),
        a.within(room_of(lane[left], lane[right])),
        times_add_up(lane[left]),
        times_add_up(lane[right]),
    ensures
        lane_trimmed(lane, left, right, a).len() == lane.len(),
        exists|j: int|
            0 <= j < lane.len() && {
                let d = #[trigger] lane_trimmed(lane, left, right, a)[j];
                if i == left {
                    end_moved(lane[i], d)
                } else if i == right {
                    front_moved(lane[i], d)
                } else {
                    d == (ClipView { start: d.start, ..lane[i] })
                }
            },
{
    reveal(lane_trimmed);
    if a.any() {
        reveal(packed);
        let changed = lane.update(left, left_trimmed(lane[left], a)).update(
            right,
            right_trimmed(lane[right], a),
        );
        let sorted = by_start(changed);
        lemma_by_start_finds(changed, i);
        let j = choose|j: int| 0 <= j < sorted.len() && sorted[j] == changed[i];
        let d = packed(sorted)[j];
        assert(d == (ClipView { start: d.start, ..changed[i] }));
    } else {
        assert(lane_trimmed(lane, left, right, a)[i] == lane[i]);
    }
}

proof fn lemma_by_start_finds(lane: Lane, i: int)
    requires
        0 <= i < lane.len(),
    ensures
        by_start(lane).len() == lane.len(),
        exists|j: int| 0 <= j < lane.len() && by_start(lane)[j] == lane[i],
{
    broadcast use vstd::seq_lib::group_to_multiset_ensures;

    ordered_is_sorted_permutation(lane, |c: ClipView| c.start);
    assert(lane.contains(lane[i]));
    assert(lane.to_multiset().count(lane[i]) > 0);
    assert(by_start(lane).contains(lane[i]));
}

/// Whether a function never answers with more than the room that it is given.
#[verifier::opaque]
pub open spec fn stays_within<F: Fn(DissolveRoom, Scalar) -> TrimAmounts>(amounts_of: F) -> bool {
    forall|room: DissolveRoom, s: Scalar, a: TrimAmounts| #[trigger]
        call_ensures(amounts_of, (room, s), a) ==> a.within(room)
}

/// Whether the times of all clips add up.
pub open spec fn lane_adds_up(lane: Lane) -> bool {
    forall|i: int| 0 <= i < lane.len() ==> times_add_up(#[trigger] lane[i])
}

/// Whether the second is the first with the same stretch of its file to show: what is shown and
/// what was trimmed of it at both ends begins at the same place and is as long together.
pub open spec fn keeps_media(c: ClipView, d: ClipView) -> bool {
    &&& d.id == c.id && d.file_path == c.file_path && d.media_duration == c.media_duration
    &&& d.source_in - d.dissolve_trim_in == c.source_in - c.dissolve_trim_in
    &&& d.dissolve_trim_in + d.duration + d.dissolve_trim_out == c.dissolve_trim_in + c.duration
        + c.dissolve_trim_out
}

/// Whether a row has the clip with the same stretch of its file to show.
pub open spec fn has_media(c: ClipView, lane: Lane) -> bool {
    exists|j: int| 0 <= j < lane.len() && keeps_media(c, #[trigger] lane[j])
}

/// Whether each clip of the first row is in the second with the same stretch of its file to show.
#[verifier::opaque]
pub open spec fn media_kept(before: Lane, after: Lane) -> bool {
    &&& after.len() == before.len()
    &&& forall|i: int| 0 <= i < before.len() ==> has_media(#[trigger] before[i], after)
}

/// Trims within the room that there is keep the stretches of files that the clips have to show.
pub proof fn trims_keep_media(lane: Lane, left: int, right: int, a: TrimAmounts)
    requires
        0 <= left < right < lane.len(),
        a.within(room_of(lane[left], lane[right])),
        lane_adds_up(lane),
    ensures
        media_kept(lane, lane_trimmed(lane, left, right, a)),
{
    reveal(media_kept);
    let after = lane_trimmed(lane, left, right, a);
    trims_keep_what_was_cut(lane, left, right, a, left);
    assert forall|i: int| 0 <= i < lane.len() implies has_media(#[trigger] lane[i], after) by {
        trims_keep_what_was_cut(lane, left, right, a, i);
        let j = choose|j: int|
            0 <= j < lane.len() && {
                let d = #[trigger] after[j];
                if i == left {
                    end_moved(lane[i], d)
                } else if i == right {
                    front_moved(lane[i], d)
                } else {
                    d == (ClipView { start: d.start, ..lane[i] })
                }
            };
        assert(keeps_media(lane[i], after[j]));
    }
}

/// What is kept and then kept at its place is kept.
pub proof fn lemma_media_kept_on(before: Lane, between: Lane, after: Lane)
    requires
        media_kept(before, between),
        after.len() == between.len(),
        forall|j: int|
            0 <= j < between.len() ==> keeps_media(#[trigger] between[j], after[j]),
    ensures
        media_kept(before, after),
{
    reveal(media_kept);
    assert forall|i: int| 0 <= i < before.len() implies has_media(#[trigger] before[i], after) by {
        assert(has_media(before[i], between));
        let j = choose|j: int|
            0 <= j < between.len() && keeps_media(before[i], #[trigger] between[j]);
        assert(keeps_media(before[i], after[j]));
    }
}

/// A row has what it has.
pub proof fn lemma_media_kept_same(lane: Lane)
    ensures
        media_kept(lane, lane),
{
    reveal(media_kept);
    assert forall|i: int| 0 <= i < lane.len() implies has_media(#[trigger] lane[i], lane) by {
        assert(keeps_media(lane[i], lane[i]));
    }
}

/// The pair of clips of a dissolve is two places of the row, the first in front.
pub proof fn lemma_pair_places(lane: Lane, left_id: u64, right_id: u64)
    ensures
        pair_places(lane, left_id, right_id) matches Ok((a, b)) ==> 0 <= a < b < lane.len(),
{
    crate::lists::lemma_first(lane, |c: ClipView| c.id == left_id);
    crate::lists::lemma_first(lane, |c: ClipView| c.id == right_id);
}

/// Trimming a pair of clips on the main track within their room keeps the stretches of files that
/// the clips have to show.
pub proof fn pair_trims_keep_media(t: TimelineView, left_id: u64, right_id: u64, a: TrimAmounts)
    requires
        t.dissolve_room(left_id, right_id) matches Some(room) ==> a.within(room),
        lane_adds_up(t.v1_clips),
    ensures
        media_kept(t.v1_clips, t.pair_trimmed(left_id, right_id, a).v1_clips),
{
    lemma_pair_places(t.v1_clips, left_id, right_id);
    match pair_places(t.v1_clips, left_id, right_id) {
        Ok((left, right)) => {
            trims_keep_media(t.v1_clips, left, right, a);
        },
        Err(_) => {
            lemma_media_kept_same(t.v1_clips);
        },
    }
}

fn add_time(a: Duration, b: Duration) -> (d: Duration)
    ensures
        d@ == plus(a@, b@),
{
    if b.nanos == 0 {
        a
    } else {
        a.saturating_add(b)
    }
}

fn find_pair(lane: &Vec<Clip>, left_id: u64, right_id: u64) -> (pair: Result<
    (usize, usize),
    NoPair,
>)
    ensures
        match (pair, pair_places(views(lane@), left_id, right_id)) {
            (Ok(p), Ok(q)) => p.0 == q.0 && p.1 == q.1 && p.0 < p.1 && p.1 < lane.len(),
            (Err(e), Err(f)) => e == f,
            _ => false,
        },
{
    let a = find_clip(lane, left_id);
    let b = find_clip(lane, right_id);
    if a >= lane.len() || b >= lane.len() {
        Err(NoPair::Gone)
    } else if a == b {
        Err(NoPair::Same)
    } else if a < b {
        Ok((a, b))
    } else {
        Ok((b, a))
    }
}

fn find_room(left: &Clip, right: &Clip) -> (room: DissolveRoom)
    ensures
        room == room_of(left@, right@),
{
    let shortest = Duration { nanos: SHORTEST_TRIMMED };
    let shown = left.source_in.saturating_add(left.duration);
    DissolveRoom {
        left_post: left.media_duration.saturating_sub(shown),
        right_pre: right.source_in,
        left_max_trim: left.duration.saturating_sub(shortest),
        right_max_trim: right.duration.saturating_sub(shortest),
        left_trim_out: left.dissolve_trim_out,
        right_trim_in: right.dissolve_trim_in,
    }
}

fn trim_lane(lane: &mut Vec<Clip>, left: usize, right: usize, a: TrimAmounts)
    requires
        left < right < old(lane).len(),
    ensures
        views(final(lane)@) == lane_trimmed(views(old(lane)@), left as int, right as int, a),
{
    reveal(lane_trimmed);
    if a.restore_left.nanos == 0 && a.restore_right.nanos == 0 && a.trim_left.nanos == 0
        && a.trim_right.nanos == 0 {
        return;
    }
    let ghost before = lane@;
    let duration = add_time(lane[left].duration, a.restore_left).saturating_sub(a.trim_left);
    let trim_out = add_time(
        lane[left].dissolve_trim_out.saturating_sub(a.restore_left),
        a.trim_left,
    );
    lane[left].duration = duration;
    lane[left].dissolve_trim_out = trim_out;
    let ghost mid = lane@;
    assert(mid =~= before.update(left as int, mid[left as int]));
    let source_in = add_time(lane[right].source_in.saturating_sub(a.restore_right), a.trim_right);
    let right_duration = add_time(lane[right].duration, a.restore_right).saturating_sub(
        a.trim_right,
    );
    let trim_in = add_time(
        lane[right].dissolve_trim_in.saturating_sub(a.restore_right),
        a.trim_right,
    );
    lane[right].source_in = source_in;
    lane[right].duration = right_duration;
    lane[right].dissolve_trim_in = trim_in;
    assert(lane@ =~= mid.update(right as int, lane@[right as int]));
    sort_clips(lane);
    pack(lane);
}

/// Why a dissolve of two clips is refused.
#[derive(Clone, Copy, Debug, PartialEq, Eq, Structural)]
pub enum NoDissolve {
    NoPair(NoPair),
    NoHandles,
}

/// The length of the dissolve between two clips of the row, as near to the wanted one
/// as their files allow.
pub open spec fn pair_length(lane: Lane, left_id: u64, right_id: u64, wanted: Scalar) -> Result<
    Scalar,
    NoDissolve,
> {
    match pair_places(lane, left_id, right_id) {
        Err(e) => Err(NoDissolve::NoPair(e)),
        Ok((a, b)) => {
            let length = wanted.smaller(longest_dissolve(lane[a], lane[b]));
            if is_no_transition(wanted) {
                Ok(Scalar { bits: ZERO })
            } else if is_no_transition(length) {
                Err(NoDissolve::NoHandles)
            } else {
                Ok(length)
            }
        },
    }
}

fn find_pair_length(lane: &Vec<Clip>, left_id: u64, right_id: u64, wanted: Scalar) -> (length:
    Result<Scalar, NoDissolve>)
    ensures
        length == pair_length(views(lane@), left_id, right_id, wanted),
{
    match find_pair(lane, left_id, right_id) {
        Err(e) => Err(NoDissolve::NoPair(e)),
        Ok((a, b)) => {
            let room = find_room(&lane[a], &lane[b]);
            let longest = seconds(room.left_post).min(seconds(room.right_pre)).double();
            let length = wanted.min(longest);
            let no_transition = Scalar { bits: NO_TRANSITION };
            if wanted.le(no_transition) {
                Ok(Scalar { bits: ZERO })
            } else if length.le(no_transition) {
                Err(NoDissolve::NoHandles)
            } else {
                Ok(length)
            }
        },
    }
}

/// A wanted length, never below zero.
pub open spec fn wanted_length(requested: Scalar) -> Scalar {
    requested.larger(Scalar { bits: ZERO })
}

impl TimelineView {
    /// The room that two clips of the main track have for a dissolve, if they are two.
    pub open spec fn dissolve_room(self, left_id: u64, right_id: u64) -> Option<DissolveRoom> {
        match pair_places(self.v1_clips, left_id, right_id) {
            Ok((a, b)) => Some(room_of(self.v1_clips[a], self.v1_clips[b])),
            Err(_) => None,
        }
    }

    /// The timeline with two clips of the main track restored and trimmed.
    pub open spec fn pair_trimmed(self, left_id: u64, right_id: u64, a: TrimAmounts) -> TimelineView {
        match pair_places(self.v1_clips, left_id, right_id) {
            Ok((left, right)) => TimelineView {
                v1_clips: lane_trimmed(self.v1_clips, left, right, a),
                ..self
            },
            Err(_) => self,
        }
    }
}

/// The error for a dissolve that is refused.
pub open spec fn refusal(e: GlobalStateError, no: NoDissolve) -> bool {
    match no {
        NoDissolve::NoPair(NoPair::Gone) => e is ClipNoLongerExists,
        NoDissolve::NoPair(NoPair::Same) => e is DissolveRequiresAdjacentClips,
        NoDissolve::NoHandles => e is InsufficientDissolveHandles,
    }
}

fn refuse(no: NoDissolve) -> (e: GlobalStateError)
    ensures
        refusal(e, no),
{
    match no {
        NoDissolve::NoPair(NoPair::Gone) => GlobalStateError::ClipNoLongerExists,
        NoDissolve::NoPair(NoPair::Same) => GlobalStateError::DissolveRequiresAdjacentClips,
        NoDissolve::NoHandles => GlobalStateError::InsufficientDissolveHandles,
    }
}

impl Timeline {
    /// Trims or restores two clips of the main track for a dissolve of the given length.
    /// How far is what `amounts_of` makes of the room they have. Gives the length that
    /// their files then allow.
    pub fn trim_v1_pair_for_dissolve<F: Fn(DissolveRoom, Scalar) -> TrimAmounts>(
        &mut self,
        left_id: u64,
        right_id: u64,
        requested: Scalar,
        amounts_of: F,
    ) -> (length: Result<Scalar, GlobalStateError>)
        requires
            forall|room: DissolveRoom, s: Scalar| #[trigger] call_requires(amounts_of, (room, s)),
            stays_within(amounts_of),
        ensures
            exists|a: TrimAmounts|
                ({
                    &&& old(self)@.dissolve_room(left_id, right_id) matches Some(room)
                        ==> call_ensures(amounts_of, (room, wanted_length(requested)), a)
                    &&& final(self)@ == #[trigger] old(self)@.pair_trimmed(left_id, right_id, a)
                }),
            match pair_length(
                final(self)@.v1_clips,
                left_id,
                right_id,
                wanted_length(requested),
            ) {
                Ok(s) => length == Ok::<Scalar, GlobalStateError>(s),
                Err(no) => length matches Err(e) && refusal(e, no),
            },
            lane_adds_up(old(self)@.v1_clips) ==> media_kept(
                old(self)@.v1_clips,
                final(self)@.v1_clips,
            ),
    {
        let wanted = requested.max(Scalar { bits: ZERO });
        let ghost base = self@;
        match find_pair(&self.v1_clips, left_id, right_id) {
            Ok((left, right)) => {
                let room = find_room(&self.v1_clips[left], &self.v1_clips[right]);
                let amounts = amounts_of(room, wanted);
                trim_lane(&mut self.v1_clips, left, right, amounts);
                assert(self@ == base.pair_trimmed(left_id, right_id, amounts));
                proof {
                    reveal(stays_within);
                    if lane_adds_up(base.v1_clips) {
                        pair_trims_keep_media(base, left_id, right_id, amounts);
                    }
                }
            },
            Err(_) => {
                proof {
                    let none = Duration { nanos: 0 };
                    let a = TrimAmounts {
                        restore_left: none,
                        restore_right: none,
                        trim_left: none,
                        trim_right: none,
                    };
                    assert(self@ == base.pair_trimmed(left_id, right_id, a));
                    lemma_media_kept_same(base.v1_clips);
                }
            },
        }
        match find_pair_length(&self.v1_clips, left_id, right_id, wanted) {
            Ok(length) => Ok(length),
            Err(no) => Err(refuse(no)),
        }
    }
}

// ---------------------------------------------------------------------------
// The trim that waited for a decision
// ---------------------------------------------------------------------------

/// What becomes of the trim that waited.
#[derive(Clone, Copy, Debug, PartialEq, Eq, Structural)]
pub enum TrimPlan {
    /// None waited.
    Nothing,
    /// The wanted length is none.
    Invalid,
    /// There is no pair of clips.
    NoPair(NoPair),
    /// Neither clip can be trimmed.
    NoMedia,
    /// The clips at these places are trimmed.
    Trim { left: usize, right: usize, amounts: TrimAmounts },
}

impl TimelineView {
    /// What becomes of the trim that waited, where the clips can be trimmed by `a`.
    pub open spec fn trim_plan(self, pending: Option<PendingTrimToFit>, a: TrimAmounts) -> TrimPlan {
        match pending {
            None => TrimPlan::Nothing,
            Some(p) => if is_no_transition(wanted_length(p.requested)) {
                TrimPlan::Invalid
            } else {
                match pair_places(self.v1_clips, p.left_id, p.right_id) {
                    Err(e) => TrimPlan::NoPair(e),
                    Ok((left, right)) => if a.trim_left@ == 0 && a.trim_right@ == 0 {
                        TrimPlan::NoMedia
                    } else {
                        TrimPlan::Trim {
                            left: left as usize,
                            right: right as usize,
                            amounts: a.only_trims(),
                        }
                    },
                }
            },
        }
    }

    /// The room that the clips of the trim that waited have.
    pub open spec fn pending_room(self, pending: Option<PendingTrimToFit>) -> Option<DissolveRoom> {
        match pending {
            Some(p) => if is_no_transition(wanted_length(p.requested)) {
                None
            } else {
                self.dissolve_room(p.left_id, p.right_id)
            },
            None => None,
        }
    }
}

/// The row after a trim, with the dissolve that is possible then.
#[verifier::opaque]
pub open spec fn lane_trimmed_and_dissolved(
    lane: Lane,
    left_id: u64,
    right_id: u64,
    left: int,
    right: int,
    a: TrimAmounts,
    wanted: Scalar,
) -> (Lane, Option<Scalar>) {
    let trimmed = lane_trimmed(lane, left, right, a);
    match (
        pair_length(trimmed, left_id, right_id, wanted),
        pair_places(trimmed, left_id, right_id),
    ) {
        (Ok(length), Ok((x, y))) => (lane_dissolved(trimmed, x, y, length), Some(length)),
        _ => (trimmed, None),
    }
}

impl Timeline {
    fn plan_trim<F: Fn(DissolveRoom, Scalar) -> TrimAmounts>(
        &self,
        pending: Option<PendingTrimToFit>,
        amounts_of: F,
    ) -> (plan: TrimPlan)
        requires
            forall|room: DissolveRoom, s: Scalar| #[trigger] call_requires(amounts_of, (room, s)),
            stays_within(amounts_of),
        ensures
            exists|a: TrimAmounts|
                ({
                    &&& plan == #[trigger] self@.trim_plan(pending, a)
                    &&& self@.pending_room(pending) matches Some(room) ==> call_ensures(
                        amounts_of,
                        (room, wanted_length(pending->0.requested)),
                        a,
                    )
                }),
            plan matches TrimPlan::Trim { left, right, .. } ==> left < right
                < self@.v1_clips.len(),
    {
        let none = Duration::zero();
        let nothing = TrimAmounts {
            restore_left: none,
            restore_right: none,
            trim_left: none,
            trim_right: none,
        };
        let p = match pending {
            Some(p) => p,
            None => {
                assert(self@.trim_plan(pending, nothing) == TrimPlan::Nothing);
                return TrimPlan::Nothing;
            },
        };
        let wanted = p.requested.max(Scalar { bits: ZERO });
        let no_transition = Scalar { bits: NO_TRANSITION };
        if wanted.le(no_transition) {
            assert(self@.trim_plan(pending, nothing) == TrimPlan::Invalid);
            return TrimPlan::Invalid;
        }
        match find_pair(&self.v1_clips, p.left_id, p.right_id) {
            Err(e) => {
                assert(self@.trim_plan(pending, nothing) == TrimPlan::NoPair(e));
                TrimPlan::NoPair(e)
            },
            Ok((left, right)) => {
                let room = find_room(&self.v1_clips[left], &self.v1_clips[right]);
                let a = amounts_of(room, wanted);
                let plan = if a.trim_left.nanos == 0 && a.trim_right.nanos == 0 {
                    TrimPlan::NoMedia
                } else {
                    TrimPlan::Trim {
                        left,
                        right,
                        amounts: TrimAmounts { restore_left: none, restore_right: none, ..a },
                    }
                };
                assert(self@.trim_plan(pending, a) == plan);
                plan
            },
        }
    }

    fn trim_and_dissolve(
        &mut self,
        left_id: u64,
        right_id: u64,
        left: usize,
        right: usize,
        a: TrimAmounts,
        wanted: Scalar,
    ) -> (length: Option<Scalar>)
        requires
            left < right < old(self)@.v1_clips.len(),
        ensures
            ({
                let after = lane_trimmed_and_dissolved(
                    old(self)@.v1_clips,
                    left_id,
                    right_id,
                    left as int,
                    right as int,
                    a,
                    wanted,
                );
                &&& final(self)@ == (TimelineView { v1_clips: after.0, ..old(self)@ })
                &&& length == after.1
            }),
    {
        reveal(lane_trimmed_and_dissolved);
        trim_lane(&mut self.v1_clips, left, right, a);
        match (
            find_pair_length(&self.v1_clips, left_id, right_id, wanted),
            find_pair(&self.v1_clips, left_id, right_id),
        ) {
            (Ok(length), Ok((x, y))) => {
                dissolve_lane(&mut self.v1_clips, x, y, length);
                Some(length)
            },
            _ => None,
        }
    }
}

/// A dissolve that became shorter than wanted, as it is told.
pub open spec fn shortened_notice(text: Option<Seq<char>>) -> Option<Seq<char>> {
    match text {
        Some(t) => Some("Trimmed to fit: dissolve shortened to "@ + t + "s."@),
        None => None,
    }
}

/// What is told where no trim is made.
pub open spec fn no_trim_notice(plan: TrimPlan, before: Option<Seq<char>>) -> Option<Seq<char>> {
    match plan {
        TrimPlan::Invalid => Some("Invalid transition duration."@),
        TrimPlan::NoPair(NoPair::Gone) => Some("Clip no longer exists."@),
        TrimPlan::NoPair(NoPair::Same) => Some("Dissolve requires adjacent clips on V1."@),
        TrimPlan::NoMedia => Some("Insufficient media (handles) for dissolve."@),
        _ => before,
    }
}

/// What is told after a trim.
pub open spec fn trim_notice(length: Option<Scalar>, text: Option<Seq<char>>) -> Option<Seq<char>> {
    if length is Some {
        shortened_notice(text)
    } else {
        Some("Insufficient media (handles) even after trim."@)
    }
}

impl StateView {
    /// The state with the clips at two places of the main track trimmed.
    #[verifier::opaque]
    pub open spec fn trim_made(
        self,
        p: PendingTrimToFit,
        left: int,
        right: int,
        a: TrimAmounts,
        text: Option<Seq<char>>,
    ) -> StateView {
        let s = self.saved(false);
        let after = lane_trimmed_and_dissolved(
            s.timeline.v1_clips,
            p.left_id,
            p.right_id,
            left,
            right,
            a,
            wanted_length(p.requested),
        );
        StateView {
            timeline: TimelineView { v1_clips: after.0, ..s.timeline },
            pending_trim_to_fit: None,
            ui_notice: trim_notice(after.1, text),
            ..s
        }
    }

    /// The state with the trim that waited made, where the clips can be trimmed by `a`.
    /// `text` is the length of the dissolve in words where it is shorter than wanted.
    pub open spec fn trimmed_to_fit(self, a: TrimAmounts, text: Option<Seq<char>>) -> StateView {
        match self.timeline.trim_plan(self.pending_trim_to_fit, a) {
            TrimPlan::Trim { left, right, amounts } => self.trim_made(
                self.pending_trim_to_fit->0,
                left as int,
                right as int,
                amounts,
                text,
            ),
            plan => StateView {
                pending_trim_to_fit: None,
                ui_notice: no_trim_notice(plan, self.ui_notice),
                ..self
            },
        }
    }

    /// The length of the dissolve that the trim that waited makes possible.
    pub open spec fn trimmed_length(self, a: TrimAmounts) -> Option<Scalar> {
        match self.timeline.trim_plan(self.pending_trim_to_fit, a) {
            TrimPlan::Trim { left, right, amounts } => {
                let p = self.pending_trim_to_fit->0;
                lane_trimmed_and_dissolved(
                    self.timeline.v1_clips,
                    p.left_id,
                    p.right_id,
                    left as int,
                    right as int,
                    amounts,
                    wanted_length(p.requested),
                ).1
            },
            _ => None,
        }
    }
}

/// The trim that waited keeps the stretches of files that the clips have to show, where it stays
/// within the room that there is.
pub proof fn fitted_trim_keeps_media(s: StateView, a: TrimAmounts, text: Option<Seq<char>>)
    requires
        s.timeline.pending_room(s.pending_trim_to_fit) matches Some(room) ==> a.within(room),
        lane_adds_up(s.timeline.v1_clips),
        s.timeline.v1_clips.len() <= usize::MAX,
    ensures
        media_kept(s.timeline.v1_clips, s.trimmed_to_fit(a, text).timeline.v1_clips),
{
    let lane = s.timeline.v1_clips;
    let after = s.trimmed_to_fit(a, text).timeline.v1_clips;
    lemma_media_kept_same(lane);
    match s.timeline.trim_plan(s.pending_trim_to_fit, a) {
        TrimPlan::Trim { left, right, amounts } => {
            let p = s.pending_trim_to_fit->0;
            let wanted = wanted_length(p.requested);
            lemma_pair_places(lane, p.left_id, p.right_id);
            match pair_places(lane, p.left_id, p.right_id) {
                Ok((x, y)) => {
                    assert(left == x && right == y);
                    assert(s.timeline.dissolve_room(p.left_id, p.right_id) == Some(
                        room_of(lane[x], lane[y]),
                    ));
                    lemma_trim_and_dissolve_keeps_media(lane, p, x, y, amounts, wanted);
                    reveal(StateView::trim_made);
                    saving_keeps_all_else(s, false);
                },
                Err(_) => {},
            }
        },
        _ => {
            assert(after == lane);
        },
    }
}

proof fn lemma_trim_and_dissolve_keeps_media(
    lane: Lane,
    p: PendingTrimToFit,
    left: int,
    right: int,
    a: TrimAmounts,
    wanted: Scalar,
)
    requires
        0 <= left < right < lane.len(),
        a.within(room_of(lane[left], lane[right])),
        lane_adds_up(lane),
    ensures
        media_kept(
            lane,
            lane_trimmed_and_dissolved(lane, p.left_id, p.right_id, left, right, a, wanted).0,
        ),
{
    reveal(lane_trimmed_and_dissolved);
    trims_keep_media(lane, left, right, a);
    let trimmed = lane_trimmed(lane, left, right, a);
    lemma_pair_places(trimmed, p.left_id, p.right_id);
    match (
        pair_length(trimmed, p.left_id, p.right_id, wanted),
        pair_places(trimmed, p.left_id, p.right_id),
    ) {
        (Ok(length), Ok((x, y))) => {
            lemma_media_kept_on(lane, trimmed, lane_dissolved(trimmed, x, y, length));
        },
        _ => {},
    }
}

fn tell_no_trim(plan: TrimPlan, before: Option<String>) -> (notice: Option<String>)
    ensures
        optional(notice) == no_trim_notice(plan, optional(before)),
{
    match plan {
        TrimPlan::Invalid => Some(owned("Invalid transition duration.")),
        TrimPlan::NoPair(NoPair::Gone) => Some(owned("Clip no longer exists.")),
        TrimPlan::NoPair(NoPair::Same) => Some(owned("Dissolve requires adjacent clips on V1.")),
        TrimPlan::NoMedia => Some(owned("Insufficient media (handles) for dissolve.")),
        _ => before,
    }
}

impl GlobalState {
    fn leave_trim(&mut self, plan: TrimPlan)
        ensures
            final(self)@ == (StateView {
                pending_trim_to_fit: None,
                ui_notice: no_trim_notice(plan, old(self)@.ui_notice),
                ..old(self)@
            }),
    {
        let mut before: Option<String> = None;
        std::mem::swap(&mut self.ui_notice, &mut before);
        self.ui_notice = tell_no_trim(plan, before);
        self.pending_trim_to_fit = None;
    }

    /// Makes the trim that waited. How far the clips are trimmed is what `amounts_of`
    /// makes of the room that they have; `shortened` gives a length in words where it is
    /// shorter than the wanted one. Says whether there is a dissolve then.
    pub fn apply_pending_trim_to_fit<
        F: Fn(DissolveRoom, Scalar) -> TrimAmounts,
        G: Fn(Scalar, Scalar) -> Option<String>,
    >(&mut self, amounts_of: F, shortened: G) -> (done: bool)
        requires
            forall|room: DissolveRoom, s: Scalar| #[trigger] call_requires(amounts_of, (room, s)),
            stays_within(amounts_of),
            forall|s: Scalar, t: Scalar| #[trigger] call_requires(shortened, (s, t)),
        ensures
            exists|a: TrimAmounts, text: Option<String>|
                ({
                    &&& old(self)@.timeline.pending_room(
                        old(self)@.pending_trim_to_fit,
                    ) matches Some(room) ==> call_ensures(
                        amounts_of,
                        (room, wanted_length(old(self)@.pending_trim_to_fit->0.requested)),
                        a,
                    )
                    &&& old(self)@.trimmed_length(a) matches Some(length) ==> call_ensures(
                        shortened,
                        (length, wanted_length(old(self)@.pending_trim_to_fit->0.requested)),
                        text,
                    )
                    &&& done == old(self)@.trimmed_length(a) is Some
                    &&& final(self)@ == #[trigger] old(self)@.trimmed_to_fit(a, optional(text))
                }),
            lane_adds_up(old(self)@.timeline.v1_clips) ==> media_kept(
                old(self)@.timeline.v1_clips,
                final(self)@.timeline.v1_clips,
            ),
    {
        let ghost base = self@;
        assert(base.timeline.v1_clips.len() == self.timeline.v1_clips.len());
        let pending = self.pending_trim_to_fit;
        let plan = self.timeline.plan_trim(pending, amounts_of);
        let ghost a = choose|a: TrimAmounts|
            ({
                &&& plan == #[trigger] base.timeline.trim_plan(pending, a)
                &&& base.timeline.pending_room(pending) matches Some(room) ==> call_ensures(
                    amounts_of,
                    (room, wanted_length(pending->0.requested)),
                    a,
                )
            });
        if let (Some(p), TrimPlan::Trim { left, right, amounts }) = (pending, plan) {
            let done = self.make_trim(p, left, right, amounts, shortened);
            proof {
                let length = base.trimmed_length(a);
                let text = choose|text: Option<String>|
                    ({
                        &&& length matches Some(s) ==> call_ensures(
                            shortened,
                            (s, wanted_length(p.requested)),
                            text,
                        )
                        &&& self@ == #[trigger] base.trim_made(
                            p,
                            left as int,
                            right as int,
                            amounts,
                            optional(text),
                        )
                    });
                assert(self@ == base.trimmed_to_fit(a, optional(text)));
                reveal(stays_within);
                if lane_adds_up(base.timeline.v1_clips) {
                    fitted_trim_keeps_media(base, a, optional(text));
                }
            }
            done
        } else {
            self.leave_trim(plan);
            assert(self@ == base.trimmed_to_fit(a, optional(None::<String>)));
            proof {
                reveal(stays_within);
                if lane_adds_up(base.timeline.v1_clips) {
                    fitted_trim_keeps_media(base, a, optional(None::<String>));
                }
            }
            false
        }
    }

    fn make_trim<G: Fn(Scalar, Scalar) -> Option<String>>(
        &mut self,
        p: PendingTrimToFit,
        left: usize,
        right: usize,
        a: TrimAmounts,
        shortened: G,
    ) -> (done: bool)
        requires
            left < right < old(self)@.timeline.v1_clips.len(),
            forall|s: Scalar, t: Scalar| #[trigger] call_requires(shortened, (s, t)),
        ensures
            ({
                let length = lane_trimmed_and_dissolved(
                    old(self)@.timeline.v1_clips,
                    p.left_id,
                    p.right_id,
                    left as int,
                    right as int,
                    a,
                    wanted_length(p.requested),
                ).1;
                &&& done == length is Some
                &&& exists|text: Option<String>|
                    ({
                        &&& length matches Some(s) ==> call_ensures(
                            shortened,
                            (s, wanted_length(p.requested)),
                            text,
                        )
                        &&& final(self)@ == #[trigger] old(self)@.trim_made(
                            p,
                            left as int,
                            right as int,
                            a,
                            optional(text),
                        )
                    })
            }),
    {
        reveal(StateView::trim_made);
        let ghost base = self@;
        let wanted = p.requested.max(Scalar { bits: ZERO });
        self.save_for_undo();
        let length = self.timeline.trim_and_dissolve(
            p.left_id,
            p.right_id,
            left,
            right,
            a,
            wanted,
        );
        let text = text_of_length(length, wanted, shortened);
        self.pending_trim_to_fit = None;
        self.ui_notice = tell_trim(length, &text);
        assert(self@ == base.trim_made(p, left as int, right as int, a, optional(text)));
        length.is_some()
    }
}

fn text_of_length<G: Fn(Scalar, Scalar) -> Option<String>>(
    length: Option<Scalar>,
    wanted: Scalar,
    shortened: G,
) -> (text: Option<String>)
    requires
        forall|s: Scalar, t: Scalar| #[trigger] call_requires(shortened, (s, t)),
    ensures
        length matches Some(s) ==> call_ensures(shortened, (s, wanted), text),
{
    match length {
        Some(s) => shortened(s, wanted),
        None => None,
    }
}

fn tell_trim(length: Option<Scalar>, text: &Option<String>) -> (notice: Option<String>)
    ensures
        optional(notice) == trim_notice(length, optional(*text)),
{
    if length.is_none() {
        return Some(owned("Insufficient media (handles) even after trim."));
    }
    match text {
        Some(t) => Some(joined3("Trimmed to fit: dissolve shortened to ", t.as_str(), "s.")),
        None => None,
    }
}

} // verus!
