//! How clips come in and go out.
use crate::clip::{Clip, ClipView};
use crate::clip_effects::{seconds, seconds_of, EffectKind};
use crate::copying::views;
use crate::effect::{SlideDirection, VideoEffect, DEFAULT_ZOOM_AMOUNT, HALF, ZERO};
use crate::lanes::Lane;
use crate::modes::{PendingTrimTrack, TransitionType};
use crate::moves::{find_clip, place_of};
use crate::scalar::Scalar;
use crate::state::{GlobalState, PendingTrimToFit, StateView};
use crate::text::owned;
use crate::time::{greatest, least, monus, Duration, MAX_NANOS};
use crate::tracks::{Timeline, TimelineView};
use vstd::prelude::*;

verus! {

broadcast use crate::copying::group_views;

/// The bit pattern of 0.2, the length of a jump in seconds.
pub const SHOCK_SECONDS: u32 = 0x3e4c_cccd;

/// The bit pattern of 1.4, the size of a jump.
pub const SHOCK_SIZE: u32 = 0x3fb3_3333;

/// The bit pattern of 0.001: a shorter transition, in seconds, is none.
pub const NO_TRANSITION: u32 = 0x3a83_126f;

/// The bit pattern of the shortest overlap, in seconds, that together with 0.0001
/// makes the half second of a whole dissolve.
pub const WHOLE_OVERLAP: u32 = 0x3eff_f2e5;

impl ClipView {
    /// The clip with another fade at its start.
    pub open spec fn with_fade_in(self, value: Scalar) -> ClipView {
        self.with_effect(
            VideoEffect::Fade {
                fade_in: self.fitted(value),
                fade_out: self.effect(EffectKind::Fade)->Fade_fade_out,
            },
        )
    }

    /// The clip with another fade at its end.
    pub open spec fn with_fade_out(self, value: Scalar) -> ClipView {
        self.with_effect(
            VideoEffect::Fade {
                fade_in: self.effect(EffectKind::Fade)->Fade_fade_in,
                fade_out: self.fitted(value),
            },
        )
    }

    /// The clip with another dissolve at its start.
    pub open spec fn with_dissolve_in(self, value: Scalar) -> ClipView {
        self.with_effect(
            VideoEffect::Dissolve {
                dissolve_in: self.fitted(value),
                dissolve_out: self.effect(EffectKind::Dissolve)->Dissolve_dissolve_out,
            },
        )
    }

    /// The clip with another dissolve at its end.
    pub open spec fn with_dissolve_out(self, value: Scalar) -> ClipView {
        self.with_effect(
            VideoEffect::Dissolve {
                dissolve_in: self.effect(EffectKind::Dissolve)->Dissolve_dissolve_in,
                dissolve_out: self.fitted(value),
            },
        )
    }

    /// The clip without fades.
    pub open spec fn without_fades(self) -> ClipView {
        self.with_fade_in(Scalar { bits: ZERO }).with_fade_out(Scalar { bits: ZERO })
    }

    /// The clip with half a second of fade at both ends, and no dissolve.
    pub open spec fn faded(self) -> ClipView {
        self.with_fade_in(Scalar { bits: HALF }).with_fade_out(
            Scalar { bits: HALF },
        ).with_dissolve_in(Scalar { bits: ZERO }).with_dissolve_out(Scalar { bits: ZERO })
    }

    /// The clip with half a second of sliding at both ends: in from the right, out to
    /// the left.
    pub open spec fn slid(self) -> ClipView {
        self.with_effect(
            VideoEffect::Slide {
                in_direction: SlideDirection::Right,
                out_direction: SlideDirection::Left,
                slide_in: self.fitted(Scalar { bits: HALF }),
                slide_out: self.fitted(Scalar { bits: HALF }),
            },
        )
    }

    /// The clip with half a second of zooming at both ends.
    pub open spec fn zoomed(self) -> ClipView {
        self.with_effect(
            VideoEffect::Zoom {
                zoom_in: self.fitted(Scalar { bits: HALF }),
                zoom_out: self.fitted(Scalar { bits: HALF }),
                zoom_amount: Scalar { bits: DEFAULT_ZOOM_AMOUNT }.clamped(
                    Scalar { bits: crate::clip_effects::TENTH },
                    Scalar { bits: crate::clip_effects::FOUR },
                ),
            },
        )
    }

    /// The clip with jumps at its start, at its end or both.
    pub open spec fn shocked(self, at_start: bool, at_end: bool) -> ClipView {
        self.with_effect(
            VideoEffect::ShockZoom {
                shock_in: self.fitted(shock_length(at_start)),
                shock_out: self.fitted(shock_length(at_end)),
                shock_amount: Scalar { bits: SHOCK_SIZE }.clamped(
                    Scalar { bits: crate::clip_effects::TENTH },
                    Scalar { bits: crate::clip_effects::FOUR },
                ),
            },
        )
    }

    /// The clip that goes out in a dissolve.
    pub open spec fn dissolving_out(self, length: Scalar) -> ClipView {
        self.with_dissolve_out(length).with_dissolve_in(Scalar { bits: ZERO }).without_fades()
    }

    /// The clip that comes in in a dissolve.
    pub open spec fn dissolving_in(self, length: Scalar) -> ClipView {
        self.with_dissolve_in(length).with_dissolve_out(Scalar { bits: ZERO }).without_fades()
    }
}

/// The length of a jump, if there is to be one.
pub open spec fn shock_length(yes: bool) -> Scalar {
    if yes {
        Scalar { bits: SHOCK_SECONDS }
    } else {
        Scalar { bits: ZERO }
    }
}

impl Clip {
    fn fade(&mut self)
        ensures
            final(self)@ == old(self)@.faded(),
    {
        self.set_fade_in(Scalar { bits: HALF });
        self.set_fade_out(Scalar { bits: HALF });
        self.set_dissolve_in(Scalar { bits: ZERO });
        self.set_dissolve_out(Scalar { bits: ZERO });
    }

    fn slide(&mut self)
        ensures
            final(self)@ == old(self)@.slid(),
    {
        self.set_slide(
            SlideDirection::Right,
            SlideDirection::Left,
            Scalar { bits: HALF },
            Scalar { bits: HALF },
        );
    }

    fn zoom(&mut self)
        ensures
            final(self)@ == old(self)@.zoomed(),
    {
        self.set_zoom(
            Scalar { bits: HALF },
            Scalar { bits: HALF },
            Scalar { bits: DEFAULT_ZOOM_AMOUNT },
        );
    }

    fn shock(&mut self, at_start: bool, at_end: bool)
        ensures
            final(self)@ == old(self)@.shocked(at_start, at_end),
    {
        let shock_in = Scalar {
            bits: if at_start {
                SHOCK_SECONDS
            } else {
                ZERO
            },
        };
        let shock_out = Scalar {
            bits: if at_end {
                SHOCK_SECONDS
            } else {
                ZERO
            },
        };
        self.set_shock_zoom(shock_in, shock_out, Scalar { bits: SHOCK_SIZE });
    }

    fn dissolve_out(&mut self, length: Scalar)
        ensures
            final(self)@ == old(self)@.dissolving_out(length),
    {
        self.set_dissolve_out(length);
        self.set_dissolve_in(Scalar { bits: ZERO });
        self.set_fade_in(Scalar { bits: ZERO });
        self.set_fade_out(Scalar { bits: ZERO });
    }

    fn dissolve_in(&mut self, length: Scalar)
        ensures
            final(self)@ == old(self)@.dissolving_in(length),
    {
        self.set_dissolve_in(length);
        self.set_dissolve_out(Scalar { bits: ZERO });
        self.set_fade_in(Scalar { bits: ZERO });
        self.set_fade_out(Scalar { bits: ZERO });
    }
}

// ---------------------------------------------------------------------------
// Pictures
// ---------------------------------------------------------------------------

impl TimelineView {
    /// The number of the row of pictures with the clip: the main track, then the video
    /// tracks above it.
    pub open spec fn picture_lane(self, clip_id: u64) -> int {
        if place_of(self.v1_clips, clip_id) < self.v1_clips.len() {
            0
        } else {
            self.video_lane(self.video_track_of(clip_id, 0))
        }
    }

    /// Whether the clip is in a row of pictures.
    pub open spec fn has_picture(self, clip_id: u64) -> bool {
        self.picture_lane(clip_id) < self.lane_count()
    }
}

impl Timeline {
    pub(crate) fn picture_lane(&self, clip_id: u64) -> (i: usize)
        requires
            self@.lane_count() <= usize::MAX,
        ensures
            i == self@.picture_lane(clip_id),
            i <= self@.lane_count(),
            i < self@.lane_count() ==> place_of(self@.lane(i as int), clip_id) < self@.lane(
                i as int,
            ).len(),
    {
        if find_clip(&self.v1_clips, clip_id) < self.v1_clips.len() {
            return 0;
        }
        let k = self.find_video_track(clip_id);
        self.video_lane(k)
    }
}

/// The row with a plain transition on the clip at `at`.
pub open spec fn lane_with_transition(lane: Lane, at: int, transition: TransitionType) -> Lane {
    match transition {
        TransitionType::Fade => lane.update(at, lane[at].faded()),
        TransitionType::Slide => lane.update(at, lane[at].slid()),
        TransitionType::Zoom => lane.update(at, lane[at].zoomed()),
        TransitionType::ShockZoom => lane_shocked(lane, at),
        TransitionType::Dissolve => lane,
    }
}

/// The row with a jump from the clip at `at` to the next one; from the one before it
/// where it is the last, and at both its ends where it is alone.
pub open spec fn lane_shocked(lane: Lane, at: int) -> Lane {
    if at + 1 < lane.len() {
        lane.update(at, lane[at].shocked(false, true)).update(
            at + 1,
            lane[at + 1].shocked(true, false),
        )
    } else if at > 0 {
        lane.update(at - 1, lane[at - 1].shocked(false, true)).update(
            at,
            lane[at].shocked(true, false),
        )
    } else {
        lane.update(at, lane[at].shocked(true, true))
    }
}

fn shock_lane(lane: &mut Vec<Clip>, at: usize)
    requires
        at < old(lane).len(),
    ensures
        views(final(lane)@) == lane_shocked(views(old(lane)@), at as int),
{
    let ghost before = lane@;
    if at + 1 < lane.len() {
        lane[at].shock(false, true);
        let ghost mid = lane@;
        assert(mid =~= before.update(at as int, mid[at as int]));
        lane[at + 1].shock(true, false);
        assert(lane@ =~= mid.update(at + 1, lane@[at + 1]));
    } else if at > 0 {
        lane[at - 1].shock(false, true);
        let ghost mid = lane@;
        assert(mid =~= before.update(at - 1, mid[at - 1]));
        lane[at].shock(true, false);
        assert(lane@ =~= mid.update(at as int, lane@[at as int]));
    } else {
        lane[at].shock(true, true);
        assert(lane@ =~= before.update(at as int, lane@[at as int]));
    }
}

impl TimelineView {
    /// The timeline with a plain transition on the clip.
    #[verifier::opaque]
    pub open spec fn with_transition(self, clip_id: u64, transition: TransitionType) -> TimelineView {
        let i = self.picture_lane(clip_id);
        self.with_lane(
            i,
            lane_with_transition(self.lane(i), place_of(self.lane(i), clip_id), transition),
        )
    }
}

impl Timeline {
    fn set_transition(&mut self, clip_id: u64, transition: TransitionType)
        requires
            old(self)@.lane_count() <= usize::MAX,
            old(self)@.has_picture(clip_id),
        ensures
            final(self)@ == old(self)@.with_transition(clip_id, transition),
    {
        reveal(TimelineView::with_transition);
        let i = self.picture_lane(clip_id);
        let lane = self.lane_mut(i);
        let at = find_clip(lane, clip_id);
        let ghost before = lane@;
        match transition {
            TransitionType::Fade => {
                lane[at].fade();
                assert(lane@ =~= before.update(at as int, lane@[at as int]));
            },
            TransitionType::Slide => {
                lane[at].slide();
                assert(lane@ =~= before.update(at as int, lane@[at as int]));
            },
            TransitionType::Zoom => {
                lane[at].zoom();
                assert(lane@ =~= before.update(at as int, lane@[at as int]));
            },
            TransitionType::ShockZoom => {
                shock_lane(lane, at);
            },
            TransitionType::Dissolve => {},
        }
    }
}

// ---------------------------------------------------------------------------
// Dissolves
// ---------------------------------------------------------------------------

/// What a dissolve meets.
#[derive(Clone, Copy, Debug, PartialEq, Eq, Structural)]
pub enum DissolveFit {
    /// There is no such clip.
    Missing,
    /// The clip is alone on the main track.
    Alone,
    /// The files are not long enough.
    NoHandles { left_id: u64, right_id: u64 },
    /// The clips of the video track neither overlap nor touch.
    Apart,
    /// It fits on the main track.
    OnMain,
    /// It fits where the clips touch.
    Touching,
    /// It fits where the clips overlap.
    Overlapping,
    /// The clips overlap for less than the whole dissolve.
    ShortOverlap,
}

impl DissolveFit {
    /// Whether there will be a dissolve.
    pub open spec fn fits(self) -> bool {
        self is OnMain || self is Touching || self is Overlapping || self is ShortOverlap
    }

    /// What is told of it; `before` was told before.
    pub open spec fn notice(self, before: Option<Seq<char>>) -> Option<Seq<char>> {
        match self {
            DissolveFit::Missing => before,
            DissolveFit::Alone => Some("Dissolve requires an adjacent clip on V1."@),
            DissolveFit::NoHandles { .. } => Some(
                "Insufficient media (handles) for dissolve. Trim to fit?"@,
            ),
            DissolveFit::Apart => Some(
                "Dissolve requires overlapping or adjacent clips on the same track."@,
            ),
            DissolveFit::OnMain => None,
            DissolveFit::Touching => before,
            DissolveFit::Overlapping => None,
            DissolveFit::ShortOverlap => Some("Not enough overlap for requested dissolve."@),
        }
    }

    /// The trim that waits for a decision; `before` waited before.
    pub open spec fn pending(self, before: Option<PendingTrimToFit>) -> Option<PendingTrimToFit> {
        match self {
            DissolveFit::Missing => before,
            DissolveFit::Alone => before,
            DissolveFit::NoHandles { left_id, right_id } => Some(
                PendingTrimToFit {
                    left_id,
                    right_id,
                    requested: Scalar { bits: HALF },
                    track: PendingTrimTrack::V1,
                },
            ),
            _ => None,
        }
    }
}

/// A dissolve from one clip of a row to another.
#[derive(Clone, Copy, Debug, PartialEq, Eq, Structural)]
pub struct DissolvePlan {
    pub fit: DissolveFit,
    pub lane: usize,
    pub out_index: usize,
    pub in_index: usize,
    pub length: Scalar,
}

/// What is left of the clip's file behind what is shown.
pub open spec fn handle_after(c: ClipView) -> int {
    monus(c.media_duration, least(c.source_in + c.duration, MAX_NANOS as int))
}

/// The longest dissolve from one clip to the other that their files allow: twice what
/// the shorter of the two has left.
pub open spec fn longest_dissolve(left: ClipView, right: ClipView) -> Scalar {
    seconds_of(handle_after(left)).smaller(seconds_of(right.source_in)).doubled()
}

/// Whether the transition is too short to be one.
pub open spec fn is_no_transition(length: Scalar) -> bool {
    !length.nan() && length.key() <= Scalar { bits: NO_TRANSITION }.key()
}

/// The end of the clip.
pub open spec fn end_of(c: ClipView) -> int {
    least(c.end(), MAX_NANOS as int)
}

/// For how long both clips are shown.
pub open spec fn common_time(a: ClipView, b: ClipView) -> int {
    monus(least(end_of(a), end_of(b)), greatest(a.start, b.start))
}

/// Of the first `n` clips, the one that overlaps the one at `target` the longest, the
/// first of equals.
pub open spec fn best_overlap(lane: Lane, target: int, n: int) -> Option<int>
    decreases n,
{
    if n <= 0 {
        None
    } else {
        let best = best_overlap(lane, target, n - 1);
        let k = n - 1;
        let time = common_time(lane[target], lane[k]);
        let zero = Scalar { bits: ZERO };
        if k != target && time > 0 && zero.below(seconds_of(time)) && (best is None
            || seconds_of(common_time(lane[target], lane[best->0])).below(seconds_of(time))) {
            Some(k)
        } else {
            best
        }
    }
}

/// The neighbour of the clip: the next one, or the one before where it is the last.
pub open spec fn neighbours(lane: Lane, at: int) -> Option<(int, int)> {
    if at + 1 < lane.len() {
        Some((at, at + 1))
    } else if at >= 1 {
        Some((at - 1, at))
    } else {
        None
    }
}

/// The dissolve on the main track from or to the clip at `at`.
pub open spec fn main_dissolve(lane: Lane, at: int) -> DissolvePlan {
    match neighbours(lane, at) {
        None => DissolvePlan {
            fit: DissolveFit::Alone,
            lane: 0,
            out_index: 0,
            in_index: 0,
            length: Scalar { bits: ZERO },
        },
        Some((out_index, in_index)) => {
            let left = lane[out_index];
            let right = lane[in_index];
            let length = Scalar { bits: HALF }.smaller(longest_dissolve(left, right));
            DissolvePlan {
                fit: if is_no_transition(length) {
                    DissolveFit::NoHandles { left_id: left.id, right_id: right.id }
                } else {
                    DissolveFit::OnMain
                },
                lane: 0,
                out_index: out_index as usize,
                in_index: in_index as usize,
                length,
            }
        },
    }
}

/// The two clips of a video track between which there may be a dissolve, and whether
/// they overlap.
pub open spec fn overlay_pair(lane: Lane, at: int) -> Option<(int, int, bool)> {
    match best_overlap(lane, at, lane.len() as int) {
        Some(k) => Some((at, k, true)),
        None => match neighbours(lane, at) {
            Some((a, b)) => Some((a, b, false)),
            None => None,
        },
    }
}

/// The dissolve on a video track from or to the clip at `at`.
pub open spec fn overlay_dissolve(lane: Lane, index: usize, at: int) -> DissolvePlan {
    let none = DissolvePlan {
        fit: DissolveFit::Apart,
        lane: index,
        out_index: 0,
        in_index: 0,
        length: Scalar { bits: ZERO },
    };
    match overlay_pair(lane, at) {
        None => none,
        Some((a, b, overlap)) => {
            let out_index = if lane[a].start <= lane[b].start {
                a
            } else {
                b
            };
            let in_index = if lane[a].start <= lane[b].start {
                b
            } else {
                a
            };
            let left = lane[out_index];
            let right = lane[in_index];
            let time = seconds_of(common_time(lane[a], lane[b]));
            let half = Scalar { bits: HALF };
            let wanted = if overlap {
                time.smaller(half)
            } else {
                half
            };
            let length = wanted.smaller(seconds_of(left.duration)).smaller(
                seconds_of(right.duration),
            );
            let whole = Scalar { bits: WHOLE_OVERLAP };
            if !overlap && right.start > least(end_of(left) + 1_000_000, MAX_NANOS as int) {
                none
            } else if is_no_transition(length) {
                none
            } else {
                DissolvePlan {
                    fit: if !overlap {
                        DissolveFit::Touching
                    } else if time.below(whole) {
                        DissolveFit::ShortOverlap
                    } else {
                        DissolveFit::Overlapping
                    },
                    lane: index,
                    out_index: out_index as usize,
                    in_index: in_index as usize,
                    length,
                }
            }
        },
    }
}

impl TimelineView {
    /// The dissolve from or to the clip.
    #[verifier::opaque]
    pub open spec fn dissolve_plan(self, clip_id: u64) -> DissolvePlan {
        let i = self.picture_lane(clip_id);
        if i >= self.lane_count() {
            DissolvePlan {
                fit: DissolveFit::Missing,
                lane: 0,
                out_index: 0,
                in_index: 0,
                length: Scalar { bits: ZERO },
            }
        } else {
            let lane = self.lane(i);
            let at = place_of(lane, clip_id);
            if i == 0 {
                main_dissolve(lane, at)
            } else {
                overlay_dissolve(lane, i as usize, at)
            }
        }
    }

    /// The timeline with the dissolve.
    #[verifier::opaque]
    pub open spec fn dissolved(self, plan: DissolvePlan) -> TimelineView {
        let lane = self.lane(plan.lane as int);
        self.with_lane(
            plan.lane as int,
            lane_dissolved(lane, plan.out_index as int, plan.in_index as int, plan.length),
        )
    }
}

/// The row with a dissolve from one clip to another.
pub open spec fn lane_dissolved(lane: Lane, out_index: int, in_index: int, length: Scalar) -> Lane {
    lane.update(out_index, lane[out_index].dissolving_out(length)).update(
        in_index,
        lane[in_index].dissolving_in(length),
    )
}

fn time_in_common(a: &Clip, b: &Clip) -> (d: Duration)
    ensures
        d@ == common_time(a@, b@),
{
    let start = a.start.max(b.start);
    let end = a.start.saturating_add(a.duration).min(b.start.saturating_add(b.duration));
    end.saturating_sub(start)
}

fn find_best_overlap(lane: &Vec<Clip>, target: usize) -> (best: Option<usize>)
    requires
        target < lane.len(),
    ensures
        best is Some == best_overlap(views(lane@), target as int, lane.len() as int) is Some,
        best is Some ==> best->0 == best_overlap(views(lane@), target as int, lane.len() as int)->0
            && best->0 < lane.len() && best->0 != target,
{
    let mut best: Option<usize> = None;
    let mut k: usize = 0;
    while k < lane.len()
        invariant
            k <= lane.len(),
            target < lane.len(),
            best is Some == best_overlap(views(lane@), target as int, k as int) is Some,
            best is Some ==> best->0 == best_overlap(views(lane@), target as int, k as int)->0
                && best->0 < k && best->0 != target,
        decreases lane.len() - k,
    {
        if k != target {
            let time = time_in_common(&lane[target], &lane[k]);
            let length = seconds(time);
            if time.nanos > 0 && (Scalar { bits: ZERO }).lt(length) {
                let longer = match best {
                    Some(b) => seconds(time_in_common(&lane[target], &lane[b])).lt(length),
                    None => true,
                };
                if longer {
                    best = Some(k);
                }
            }
        }
        k = k + 1;
    }
    best
}

fn find_neighbours(lane: &Vec<Clip>, at: usize) -> (pair: Option<(usize, usize)>)
    requires
        at < lane.len(),
    ensures
        match (pair, neighbours(views(lane@), at as int)) {
            (Some(p), Some(q)) => p.0 == q.0 && p.1 == q.1 && p.0 < p.1 && p.1 < lane.len(),
            (None, None) => true,
            _ => false,
        },
{
    if at + 1 < lane.len() {
        Some((at, at + 1))
    } else if at >= 1 {
        Some((at - 1, at))
    } else {
        None
    }
}

fn plan_main_dissolve(lane: &Vec<Clip>, at: usize) -> (plan: DissolvePlan)
    requires
        at < lane.len(),
    ensures
        plan == main_dissolve(views(lane@), at as int),
        plan.fit.fits() ==> plan.out_index < lane.len() && plan.in_index < lane.len()
            && plan.out_index != plan.in_index,
{
    match find_neighbours(lane, at) {
        None => DissolvePlan {
            fit: DissolveFit::Alone,
            lane: 0,
            out_index: 0,
            in_index: 0,
            length: Scalar { bits: ZERO },
        },
        Some((out_index, in_index)) => {
            let left = &lane[out_index];
            let right = &lane[in_index];
            let shown = left.source_in.saturating_add(left.duration);
            let after = seconds(left.media_duration.saturating_sub(shown));
            let before = seconds(right.source_in);
            let length = (Scalar { bits: HALF }).min(after.min(before).double());
            let no_transition = Scalar { bits: NO_TRANSITION };
            DissolvePlan {
                fit: if length.le(no_transition) {
                    DissolveFit::NoHandles { left_id: left.id, right_id: right.id }
                } else {
                    DissolveFit::OnMain
                },
                lane: 0,
                out_index,
                in_index,
                length,
            }
        },
    }
}

fn plan_overlay_dissolve(lane: &Vec<Clip>, index: usize, at: usize) -> (plan: DissolvePlan)
    requires
        at < lane.len(),
    ensures
        plan == overlay_dissolve(views(lane@), index, at as int),
        plan.fit.fits() ==> plan.out_index < lane.len() && plan.in_index < lane.len()
            && plan.out_index != plan.in_index,
{
    let none = DissolvePlan {
        fit: DissolveFit::Apart,
        lane: index,
        out_index: 0,
        in_index: 0,
        length: Scalar { bits: ZERO },
    };
    let best = find_best_overlap(lane, at);
    let overlap = best.is_some();
    let (a, b) = match best {
        Some(k) => (at, k),
        None => match find_neighbours(lane, at) {
            Some(pair) => pair,
            None => {
                return none;
            },
        },
    };
    let (out_index, in_index) = if lane[a].start.nanos <= lane[b].start.nanos {
        (a, b)
    } else {
        (b, a)
    };
    let left = &lane[out_index];
    let right = &lane[in_index];
    let half = Scalar { bits: HALF };
    let time = seconds(time_in_common(&lane[a], &lane[b]));
    let wanted = if overlap {
        time.min(half)
    } else {
        half
    };
    let length = wanted.min(seconds(left.duration)).min(seconds(right.duration));
    if !overlap {
        let left_end = left.start.saturating_add(left.duration);
        let reach = left_end.saturating_add(Duration::from_millis(1));
        if right.start.nanos > reach.nanos {
            return none;
        }
    }
    let no_transition = Scalar { bits: NO_TRANSITION };
    let whole = Scalar { bits: WHOLE_OVERLAP };
    if length.le(no_transition) {
        return none;
    }
    DissolvePlan {
        fit: if !overlap {
            DissolveFit::Touching
        } else if time.lt(whole) {
            DissolveFit::ShortOverlap
        } else {
            DissolveFit::Overlapping
        },
        lane: index,
        out_index,
        in_index,
        length,
    }
}

impl Timeline {
    fn plan_dissolve(&self, clip_id: u64) -> (plan: DissolvePlan)
        requires
            self@.lane_count() <= usize::MAX,
        ensures
            plan == self@.dissolve_plan(clip_id),
            plan.fit.fits() ==> plan.lane < self@.lane_count() && plan.out_index < self@.lane(
                plan.lane as int,
            ).len() && plan.in_index < self@.lane(plan.lane as int).len() && plan.out_index
                != plan.in_index,
    {
        reveal(TimelineView::dissolve_plan);
        let i = self.picture_lane(clip_id);
        if i >= self.lane_count() {
            return DissolvePlan {
                fit: DissolveFit::Missing,
                lane: 0,
                out_index: 0,
                in_index: 0,
                length: Scalar { bits: ZERO },
            };
        }
        let lane = self.lane(i);
        let at = find_clip(lane, clip_id);
        if i == 0 {
            plan_main_dissolve(lane, at)
        } else {
            plan_overlay_dissolve(lane, i, at)
        }
    }

    fn set_dissolve(&mut self, plan: DissolvePlan)
        requires
            plan.lane < old(self)@.lane_count(),
            plan.out_index < old(self)@.lane(plan.lane as int).len(),
            plan.in_index < old(self)@.lane(plan.lane as int).len(),
            plan.out_index != plan.in_index,
        ensures
            final(self)@ == old(self)@.dissolved(plan),
    {
        reveal(TimelineView::dissolved);
        let lane = self.lane_mut(plan.lane);
        dissolve_lane(lane, plan.out_index, plan.in_index, plan.length);
    }
}

pub(crate) fn dissolve_lane(lane: &mut Vec<Clip>, out_index: usize, in_index: usize, length: Scalar)
    requires
        out_index < old(lane).len(),
        in_index < old(lane).len(),
        out_index != in_index,
    ensures
        views(final(lane)@) == lane_dissolved(
            views(old(lane)@),
            out_index as int,
            in_index as int,
            length,
        ),
{
    let ghost before = lane@;
    lane[out_index].dissolve_out(length);
    let ghost mid = lane@;
    assert(mid =~= before.update(out_index as int, mid[out_index as int]));
    lane[in_index].dissolve_in(length);
    assert(lane@ =~= mid.update(in_index as int, lane@[in_index as int]));
}

impl StateView {
    /// The state with a dissolve from or to the clip, where one fits.
    pub open spec fn dissolved(self, clip_id: u64) -> StateView {
        let plan = self.timeline.dissolve_plan(clip_id);
        if plan.fit.fits() {
            let s = self.saved(false);
            StateView {
                timeline: s.timeline.dissolved(plan),
                ui_notice: plan.fit.notice(s.ui_notice),
                pending_trim_to_fit: plan.fit.pending(s.pending_trim_to_fit),
                ..s
            }
        } else {
            StateView {
                ui_notice: plan.fit.notice(self.ui_notice),
                pending_trim_to_fit: plan.fit.pending(self.pending_trim_to_fit),
                ..self
            }
        }
    }

    /// The state with a plain transition on the clip, if it is there.
    pub open spec fn transitioned(self, clip_id: u64, transition: TransitionType) -> StateView {
        if self.timeline.has_picture(clip_id) {
            let s = self.saved(false);
            StateView {
                timeline: s.timeline.with_transition(clip_id, transition),
                ui_notice: None,
                ..s
            }
        } else {
            self
        }
    }
}

fn notice_text(fit: DissolveFit, before: Option<String>) -> (notice: Option<String>)
    ensures
        crate::copying::optional(notice) == fit.notice(crate::copying::optional(before)),
{
    match fit {
        DissolveFit::Missing => before,
        DissolveFit::Alone => Some(owned("Dissolve requires an adjacent clip on V1.")),
        DissolveFit::NoHandles { .. } => Some(
            owned("Insufficient media (handles) for dissolve. Trim to fit?"),
        ),
        DissolveFit::Apart => Some(
            owned("Dissolve requires overlapping or adjacent clips on the same track."),
        ),
        DissolveFit::OnMain => None,
        DissolveFit::Touching => before,
        DissolveFit::Overlapping => None,
        DissolveFit::ShortOverlap => Some(owned("Not enough overlap for requested dissolve.")),
    }
}

fn pending_trim(fit: DissolveFit, before: Option<PendingTrimToFit>) -> (pending: Option<
    PendingTrimToFit,
>)
    ensures
        pending == fit.pending(before),
{
    match fit {
        DissolveFit::Missing => before,
        DissolveFit::Alone => before,
        DissolveFit::NoHandles { left_id, right_id } => Some(
            PendingTrimToFit {
                left_id,
                right_id,
                requested: Scalar { bits: HALF },
                track: PendingTrimTrack::V1,
            },
        ),
        _ => None,
    }
}

fn plan_fits(fit: DissolveFit) -> (yes: bool)
    ensures
        yes == fit.fits(),
{
    match fit {
        DissolveFit::OnMain => true,
        DissolveFit::Touching => true,
        DissolveFit::Overlapping => true,
        DissolveFit::ShortOverlap => true,
        _ => false,
    }
}

impl GlobalState {
    fn tell_fit(&mut self, fit: DissolveFit)
        ensures
            final(self)@ == (StateView {
                ui_notice: fit.notice(old(self)@.ui_notice),
                pending_trim_to_fit: fit.pending(old(self)@.pending_trim_to_fit),
                ..old(self)@
            }),
    {
        let mut before: Option<String> = None;
        std::mem::swap(&mut self.ui_notice, &mut before);
        self.ui_notice = notice_text(fit, before);
        self.pending_trim_to_fit = pending_trim(fit, self.pending_trim_to_fit);
    }

    fn apply_dissolve_transition(&mut self, clip_id: u64) -> (applied: bool)
        requires
            old(self)@.timeline.lane_count() <= usize::MAX,
        ensures
            applied == old(self)@.timeline.dissolve_plan(clip_id).fit.fits(),
            final(self)@ == old(self)@.dissolved(clip_id),
    {
        let plan = self.timeline.plan_dissolve(clip_id);
        if !plan_fits(plan.fit) {
            self.tell_fit(plan.fit);
            return false;
        }
        self.save_for_undo();
        self.timeline.set_dissolve(plan);
        self.tell_fit(plan.fit);
        true
    }

    fn apply_plain_transition(&mut self, clip_id: u64, transition: TransitionType) -> (applied: bool)
        requires
            old(self)@.timeline.lane_count() <= usize::MAX,
        ensures
            applied == old(self)@.timeline.has_picture(clip_id),
            final(self)@ == old(self)@.transitioned(clip_id, transition),
    {
        if self.timeline.picture_lane(clip_id) >= self.timeline.lane_count() {
            return false;
        }
        self.save_for_undo();
        self.timeline.set_transition(clip_id, transition);
        self.ui_notice = None;
        true
    }

    /// Puts a transition on the clip. Says whether that was possible.
    pub fn apply_transition_to_clip(&mut self, clip_id: u64, transition: TransitionType) -> (applied:
        bool)
        requires
            old(self)@.timeline.lane_count() <= usize::MAX,
        ensures
            transition == TransitionType::Dissolve ==> applied
                == old(self)@.timeline.dissolve_plan(clip_id).fit.fits() && final(self)@ == old(
                self,
            )@.dissolved(clip_id),
            transition != TransitionType::Dissolve ==> applied
                == old(self)@.timeline.has_picture(clip_id) && final(self)@ == old(
                self,
            )@.transitioned(clip_id, transition),
    {
        if transition == TransitionType::Dissolve {
            self.apply_dissolve_transition(clip_id)
        } else {
            self.apply_plain_transition(clip_id, transition)
        }
    }

    /// A transition is being dragged.
    pub fn begin_transition_drag(&mut self, transition: TransitionType)
        ensures
            final(self)@ == (StateView { pending_transition: Some(transition), ..old(self)@ }),
    {
        self.pending_transition = Some(transition);
    }

    /// No transition is being dragged any more.
    pub fn clear_transition_drag(&mut self)
        ensures
            final(self)@ == (StateView { pending_transition: None, ..old(self)@ }),
    {
        self.pending_transition = None;
    }
}

} // verus!
