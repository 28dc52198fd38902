//! The dissolves at the ends of the selected clip.
use crate::clip::{Clip, ClipView};
use crate::copying::{optional, views};
use crate::effect::ZERO;
use crate::errors::GlobalStateError;
use crate::lanes::Lane;
use crate::moves::{find_clip, place_of};
use crate::scalar::Scalar;
use crate::state::{saving_keeps_all_else, GlobalState, StateView};
use crate::text::{joined3, owned};
use crate::tracks::{Timeline, TimelineView};
use crate::transitions::{is_no_transition, NO_TRANSITION};
use crate::trims::{
    keeps_media, lane_adds_up, lemma_media_kept_on, lemma_media_kept_same, media_kept, pair_length,
    pair_trims_keep_media, refusal, stays_within, wanted_length, DissolveRoom, NoDissolve, NoPair,
    TrimAmounts,
};
use vstd::prelude::*;

verus! {

broadcast use crate::copying::group_views;

/// The clip with another dissolve at its start or at its end, and no fades.
pub open spec fn edge_set(c: ClipView, at_start: bool, length: Scalar) -> ClipView {
    if at_start {
        c.with_dissolve_in(length).without_fades()
    } else {
        c.with_dissolve_out(length).without_fades()
    }
}

/// The row with a dissolve at the start or at the end of the clip at `i`, and at the
/// other end of the one at `j`, if there is one.
pub open spec fn lane_edges_set(
    lane: Lane,
    i: int,
    j: Option<int>,
    at_start: bool,
    length: Scalar,
) -> Lane {
    let one = lane.update(i, edge_set(lane[i], at_start, length));
    match j {
        Some(k) => one.update(k, edge_set(one[k], !at_start, length)),
        None => one,
    }
}

/// The index of the neighbour at the start or at the end.
pub open spec fn neighbour(len: int, i: int, at_start: bool) -> Option<int> {
    if at_start {
        if i >= 1 {
            Some(i - 1)
        } else {
            None
        }
    } else if i + 1 < len {
        Some(i + 1)
    } else {
        None
    }
}

fn set_edge(c: &mut Clip, at_start: bool, length: Scalar)
    ensures
        final(c)@ == edge_set(old(c)@, at_start, length),
{
    if at_start {
        c.set_dissolve_in(length);
    } else {
        c.set_dissolve_out(length);
    }
    c.set_fade_in(Scalar { bits: ZERO });
    c.set_fade_out(Scalar { bits: ZERO });
}

fn set_lane_edges(lane: &mut Vec<Clip>, i: usize, j: Option<usize>, at_start: bool, length: Scalar)
    requires
        i < old(lane).len(),
        j matches Some(k) ==> k < old(lane).len(),
    ensures
        views(final(lane)@) == lane_edges_set(
            views(old(lane)@),
            i as int,
            match j {
                Some(k) => Some(k as int),
                None => None,
            },
            at_start,
            length,
        ),
{
    let ghost before = lane@;
    set_edge(&mut lane[i], at_start, length);
    let ghost mid = lane@;
    assert(mid =~= before.update(i as int, mid[i as int]));
    if let Some(k) = j {
        set_edge(&mut lane[k], !at_start, length);
        assert(lane@ =~= mid.update(k as int, lane@[k as int]));
    }
}

fn find_neighbour(len: usize, i: usize, at_start: bool) -> (j: Option<usize>)
    requires
        i < len,
    ensures
        match (j, neighbour(len as int, i as int, at_start)) {
            (Some(a), Some(b)) => a == b && a < len,
            (None, None) => true,
            _ => false,
        },
{
    if at_start {
        if i >= 1 {
            Some(i - 1)
        } else {
            None
        }
    } else if i + 1 < len {
        Some(i + 1)
    } else {
        None
    }
}

/// The row with the dissolve between the clip at `i` and its neighbour, each found
/// again by its id.
pub open spec fn lane_edge_by_id(lane: Lane, i: int, at_start: bool, length: Scalar) -> Lane {
    lane_edges_set(
        lane,
        place_of(lane, lane[i].id),
        match neighbour(lane.len() as int, i, at_start) {
            Some(k) => Some(place_of(lane, lane[k].id)),
            None => None,
        },
        at_start,
        length,
    )
}

proof fn lemma_place_of_own_id(lane: Lane, i: int)
    requires
        0 <= i < lane.len(),
    ensures
        0 <= place_of(lane, lane[i].id) < lane.len(),
{
    let p = |c: ClipView| c.id == lane[i].id;
    crate::lists::lemma_first(lane, p);
    assert(p(lane[i]));
}

fn set_edge_by_id(lane: &mut Vec<Clip>, i: usize, at_start: bool, length: Scalar)
    requires
        i < old(lane).len(),
    ensures
        views(final(lane)@) == lane_edge_by_id(views(old(lane)@), i as int, at_start, length),
{
    proof {
        lemma_place_of_own_id(views(lane@), i as int);
    }
    let own = find_clip(lane, lane[i].id);
    let other: Option<usize> = match find_neighbour(lane.len(), i, at_start) {
        Some(k) => {
            proof {
                lemma_place_of_own_id(views(lane@), k as int);
            }
            Some(find_clip(lane, lane[k].id))
        },
        None => None,
    };
    set_lane_edges(lane, own, other, at_start, length);
}

/// What is told of a dissolve that is refused.
pub open spec fn refusal_text(no: NoDissolve) -> Seq<char> {
    match no {
        NoDissolve::NoPair(NoPair::Gone) => "Clip no longer exists."@,
        NoDissolve::NoPair(NoPair::Same) => "Dissolve requires adjacent clips on V1."@,
        NoDissolve::NoHandles => "Insufficient media (handles) for dissolve."@,
    }
}

/// A dissolve that became shorter than wanted, as it is told.
pub open spec fn handles_notice(text: Option<Seq<char>>) -> Option<Seq<char>> {
    match text {
        Some(t) => Some("Insufficient handles. Dissolve shortened to "@ + t + "s."@),
        None => None,
    }
}

/// What becomes of a dissolve on the main track.
pub ghost struct EdgeResult {
    pub v1_clips: Lane,
    pub length: Result<Scalar, NoDissolve>,
}

/// The main track with a dissolve of the wanted length between the clip at `i` and its
/// neighbour; the two can be trimmed by `a`.
#[verifier::opaque]
pub open spec fn v1_edge(
    t: TimelineView,
    i: int,
    at_start: bool,
    wanted: Scalar,
    a: TrimAmounts,
) -> EdgeResult {
    match neighbour(t.v1_clips.len() as int, i, at_start) {
        None => EdgeResult {
            v1_clips: lane_edge_by_id(t.v1_clips, i, at_start, wanted),
            length: Ok(wanted),
        },
        Some(k) => {
            let left_id = t.v1_clips[if at_start {
                k
            } else {
                i
            }].id;
            let right_id = t.v1_clips[if at_start {
                i
            } else {
                k
            }].id;
            let trimmed = t.pair_trimmed(left_id, right_id, a).v1_clips;
            let length = pair_length(trimmed, left_id, right_id, wanted);
            EdgeResult {
                v1_clips: match length {
                    Ok(s) => lane_edge_by_id(trimmed, i, at_start, s),
                    Err(_) => trimmed,
                },
                length,
            }
        },
    }
}

/// The room that the clip at `i` of the main track and its neighbour have.
pub open spec fn v1_edge_room(t: TimelineView, i: int, at_start: bool) -> Option<DissolveRoom> {
    match neighbour(t.v1_clips.len() as int, i, at_start) {
        None => None,
        Some(k) => t.dissolve_room(
            t.v1_clips[if at_start {
                k
            } else {
                i
            }].id,
            t.v1_clips[if at_start {
                i
            } else {
                k
            }].id,
        ),
    }
}

proof fn lemma_pair_trimmed_len(t: TimelineView, left_id: u64, right_id: u64, a: TrimAmounts)
    ensures
        t.pair_trimmed(left_id, right_id, a).v1_clips.len() == t.v1_clips.len(),
{
    reveal(crate::trims::lane_trimmed);
    reveal(crate::moves::packed);
    let lane = t.v1_clips;
    crate::lists::lemma_first(lane, |c: ClipView| c.id == left_id);
    crate::lists::lemma_first(lane, |c: ClipView| c.id == right_id);
    if let Ok((x, y)) = crate::trims::pair_places(lane, left_id, right_id) {
        let changed = lane.update(x, crate::trims::left_trimmed(lane[x], a)).update(
            y,
            crate::trims::right_trimmed(lane[y], a),
        );
        crate::order::ordered_is_sorted_permutation(changed, |c: ClipView| c.start);
    }
}

/// A dissolve between a clip of the main track and its neighbour keeps the stretches of files that
/// the clips have to show, where the two are trimmed within their room.
pub proof fn edge_keeps_media(
    t: TimelineView,
    i: int,
    at_start: bool,
    wanted: Scalar,
    a: TrimAmounts,
)
    requires
        0 <= i < t.v1_clips.len(),
        v1_edge_room(t, i, at_start) matches Some(room) ==> a.within(room),
        lane_adds_up(t.v1_clips),
    ensures
        media_kept(t.v1_clips, v1_edge(t, i, at_start, wanted, a).v1_clips),
{
    reveal(v1_edge);
    let lane = t.v1_clips;
    match neighbour(lane.len() as int, i, at_start) {
        None => {
            lemma_media_kept_same(lane);
            lemma_edge_keeps_times(lane, i, at_start, wanted);
            lemma_media_kept_on(lane, lane, lane_edge_by_id(lane, i, at_start, wanted));
        },
        Some(k) => {
            let left_id = lane[if at_start {
                k
            } else {
                i
            }].id;
            let right_id = lane[if at_start {
                i
            } else {
                k
            }].id;
            pair_trims_keep_media(t, left_id, right_id, a);
            lemma_pair_trimmed_len(t, left_id, right_id, a);
            let trimmed = t.pair_trimmed(left_id, right_id, a).v1_clips;
            if let Ok(s) = pair_length(trimmed, left_id, right_id, wanted) {
                lemma_edge_keeps_times(trimmed, i, at_start, s);
                lemma_media_kept_on(lane, trimmed, lane_edge_by_id(trimmed, i, at_start, s));
            }
        },
    }
}

proof fn lemma_edge_keeps_times(lane: Lane, i: int, at_start: bool, length: Scalar)
    requires
        0 <= i < lane.len(),
    ensures
        ({
            let after = lane_edge_by_id(lane, i, at_start, length);
            &&& after.len() == lane.len()
            &&& forall|j: int|
                0 <= j < lane.len() ==> keeps_media(#[trigger] lane[j], after[j])
        }),
{
    lemma_place_of_own_id(lane, i);
    if let Some(k) = neighbour(lane.len() as int, i, at_start) {
        lemma_place_of_own_id(lane, k);
    }
}

impl Timeline {
    fn set_v1_edge<F: Fn(DissolveRoom, Scalar) -> TrimAmounts>(
        &mut self,
        i: usize,
        at_start: bool,
        wanted: Scalar,
        amounts_of: F,
    ) -> (length: Result<Scalar, GlobalStateError>)
        requires
            i < old(self)@.v1_clips.len(),
            wanted == wanted_length(wanted),
            forall|room: DissolveRoom, s: Scalar| #[trigger] call_requires(amounts_of, (room, s)),
            stays_within(amounts_of),
        ensures
            exists|a: TrimAmounts|
                ({
                    let after = #[trigger] v1_edge(old(self)@, i as int, at_start, wanted, a);
                    &&& v1_edge_room(old(self)@, i as int, at_start) matches Some(room)
                        ==> call_ensures(amounts_of, (room, wanted), a)
                    &&& final(self)@ == (TimelineView { v1_clips: after.v1_clips, ..old(self)@ })
                    &&& match after.length {
                        Ok(s) => length == Ok::<Scalar, GlobalStateError>(s),
                        Err(no) => length matches Err(e) && refusal(e, no),
                    }
                }),
    {
        reveal(v1_edge);
        let ghost base = self@;
        match find_neighbour(self.v1_clips.len(), i, at_start) {
            None => {
                set_edge_by_id(&mut self.v1_clips, i, at_start, wanted);
                proof {
                    let none = crate::time::Duration { nanos: 0 };
                    let a = TrimAmounts {
                        restore_left: none,
                        restore_right: none,
                        trim_left: none,
                        trim_right: none,
                    };
                    assert(v1_edge(base, i as int, at_start, wanted, a).v1_clips
                        == self@.v1_clips);
                }
                Ok(wanted)
            },
            Some(k) => {
                let left_id: u64 = self.v1_clips[if at_start {
                    k
                } else {
                    i
                }].id;
                let right_id: u64 = self.v1_clips[if at_start {
                    i
                } else {
                    k
                }].id;
                let length = self.trim_v1_pair_for_dissolve(left_id, right_id, wanted, amounts_of);
                let ghost trimmed = self@;
                let ghost a = choose|a: TrimAmounts|
                    ({
                        &&& base.dissolve_room(left_id, right_id) matches Some(room)
                            ==> call_ensures(amounts_of, (room, wanted), a)
                        &&& trimmed == #[trigger] base.pair_trimmed(left_id, right_id, a)
                    });
                proof {
                    lemma_pair_trimmed_len(base, left_id, right_id, a);
                }
                match length {
                    Ok(s) => {
                        set_edge_by_id(&mut self.v1_clips, i, at_start, s);
                        assert(v1_edge(base, i as int, at_start, wanted, a).v1_clips
                            == self@.v1_clips);
                        Ok(s)
                    },
                    Err(e) => {
                        assert(v1_edge(base, i as int, at_start, wanted, a).v1_clips
                            == self@.v1_clips);
                        Err(e)
                    },
                }
            },
        }
    }

    fn set_overlay_edge(&mut self, clip_id: u64, at_start: bool, length: Scalar) -> (found: bool)
        requires
            old(self)@.lane_count() <= usize::MAX,
        ensures
            found == old(self)@.has_overlay(clip_id),
            final(self)@ == old(self)@.overlay_edge(clip_id, at_start, length),
    {
        reveal(TimelineView::overlay_edge);
        let track = self.find_video_track(clip_id);
        if track >= self.video_tracks.len() {
            return false;
        }
        let at = find_clip(&self.video_tracks[track].clips, clip_id);
        let other = find_neighbour(self.video_tracks[track].clips.len(), at, at_start);
        let ghost before = self.video_tracks@;
        set_lane_edges(&mut self.video_tracks[track].clips, at, other, at_start, length);
        assert(self.video_tracks@ =~= before.update(
            track as int,
            self.video_tracks@[track as int],
        ));
        true
    }
}

impl TimelineView {
    /// Whether the clip is on a video track above the main one.
    pub open spec fn has_overlay(self, clip_id: u64) -> bool {
        self.video_track_of(clip_id, 0) < self.video_tracks.len()
    }

    /// The timeline with the dissolve between a clip of a video track above the main one
    /// and its neighbour.
    #[verifier::opaque]
    pub open spec fn overlay_edge(self, clip_id: u64, at_start: bool, length: Scalar) -> TimelineView {
        let track = self.video_track_of(clip_id, 0);
        if track < self.video_tracks.len() {
            let lane = self.video_tracks[track].clips;
            let at = place_of(lane, clip_id);
            self.with_video_clips(
                track,
                lane_edges_set(
                    lane,
                    at,
                    neighbour(lane.len() as int, at, at_start),
                    at_start,
                    length,
                ),
            )
        } else {
            self
        }
    }
}

impl StateView {
    /// The state with a dissolve on the main track between the clip at `i` and its
    /// neighbour.
    #[verifier::opaque]
    pub open spec fn v1_edge_set(
        self,
        i: int,
        at_start: bool,
        wanted: Scalar,
        a: TrimAmounts,
        text: Option<Seq<char>>,
    ) -> StateView {
        let s = self.saved(false);
        let after = v1_edge(s.timeline, i, at_start, wanted, a);
        StateView {
            timeline: TimelineView { v1_clips: after.v1_clips, ..s.timeline },
            pending_trim_to_fit: if after.length is Ok {
                None
            } else {
                s.pending_trim_to_fit
            },
            ui_notice: match after.length {
                Ok(_) => handles_notice(text),
                Err(no) => Some(refusal_text(no)),
            },
            ..s
        }
    }

    /// The state with a dissolve at a clip of a video track above the main one.
    #[verifier::opaque]
    pub open spec fn overlay_edge_set(self, id: u64, at_start: bool, length: Scalar) -> StateView {
        let s = self.saved(false);
        StateView {
            timeline: s.timeline.overlay_edge(id, at_start, length),
            ui_notice: if s.timeline.has_overlay(id) {
                None
            } else {
                s.ui_notice
            },
            ..s
        }
    }

    /// The state with a dissolve of the wanted length at the start or at the end of the
    /// selected clip.
    pub open spec fn selected_edge_set(
        self,
        at_start: bool,
        wanted: Scalar,
        a: TrimAmounts,
        text: Option<Seq<char>>,
    ) -> StateView {
        match self.selection.selected_clip_id {
            None => self,
            Some(id) => {
                let v1 = self.timeline.v1_clips;
                let i = place_of(v1, id);
                if i >= v1.len() {
                    self.overlay_edge_set(id, at_start, wanted)
                } else if neighbour(v1.len() as int, i, at_start) is None && !is_no_transition(
                    wanted,
                ) {
                    StateView {
                        ui_notice: Some("Dissolve requires an adjacent clip on V1."@),
                        ..self
                    }
                } else {
                    self.v1_edge_set(i, at_start, wanted, a, text)
                }
            },
        }
    }
}

fn edge_notice(length: &Result<Scalar, GlobalStateError>, text: &Option<String>, Ghost(said): Ghost<
    Result<Scalar, NoDissolve>,
>) -> (notice: Option<String>)
    requires
        match said {
            Ok(s) => *length == Ok::<Scalar, GlobalStateError>(s),
            Err(no) => *length matches Err(e) && refusal(e, no),
        },
    ensures
        optional(notice) == match said {
            Ok(_) => handles_notice(optional(*text)),
            Err(no) => Some(refusal_text(no)),
        },
{
    match length {
        Ok(_) => match text {
            Some(t) => Some(
                joined3("Insufficient handles. Dissolve shortened to ", t.as_str(), "s."),
            ),
            None => None,
        },
        Err(e) => Some(e.message()),
    }
}

/// The text of the length, if there is a dissolve of a length that was wanted.
fn edge_text<G: Fn(Scalar, Scalar) -> Option<String>>(
    length: &Result<Scalar, GlobalStateError>,
    alone: bool,
    wanted: Scalar,
    shortened: G,
) -> (text: Option<String>)
    requires
        forall|s: Scalar, t: Scalar| #[trigger] call_requires(shortened, (s, t)),
    ensures
        match *length {
            Ok(s) => if !alone && !is_no_transition(wanted) {
                call_ensures(shortened, (s, wanted), text)
            } else {
                text is None
            },
            Err(_) => true,
        },
{
    let no_transition = Scalar { bits: NO_TRANSITION };
    match length {
        Ok(s) => if !alone && !wanted.le(no_transition) {
            shortened(*s, wanted)
        } else {
            None
        },
        Err(_) => None,
    }
}

/// What the two functions that a dissolve is given say of it.
#[verifier::opaque]
pub open spec fn edge_calls<
    F: Fn(DissolveRoom, Scalar) -> TrimAmounts,
    G: Fn(Scalar, Scalar) -> Option<String>,
>(
    t: TimelineView,
    i: int,
    at_start: bool,
    wanted: Scalar,
    amounts_of: F,
    shortened: G,
    a: TrimAmounts,
    text: Option<String>,
) -> bool {
    &&& v1_edge_room(t, i, at_start) matches Some(room) ==> call_ensures(
        amounts_of,
        (room, wanted),
        a,
    )
    &&& v1_edge(t, i, at_start, wanted, a).length matches Ok(s) ==> if neighbour(
        t.v1_clips.len() as int,
        i,
        at_start,
    ) is Some && !is_no_transition(wanted) {
        call_ensures(shortened, (s, wanted), text)
    } else {
        text is None
    }
}

impl GlobalState {
    fn set_selected_v1_edge<
        F: Fn(DissolveRoom, Scalar) -> TrimAmounts,
        G: Fn(Scalar, Scalar) -> Option<String>,
    >(&mut self, i: usize, at_start: bool, wanted: Scalar, amounts_of: F, shortened: G)
        requires
            i < old(self)@.timeline.v1_clips.len(),
            wanted == wanted_length(wanted),
            forall|room: DissolveRoom, s: Scalar| #[trigger] call_requires(amounts_of, (room, s)),
            stays_within(amounts_of),
            forall|s: Scalar, t: Scalar| #[trigger] call_requires(shortened, (s, t)),
        ensures
            exists|a: TrimAmounts, text: Option<String>|
                ({
                    &&& edge_calls(
                        old(self)@.timeline,
                        i as int,
                        at_start,
                        wanted,
                        amounts_of,
                        shortened,
                        a,
                        text,
                    )
                    &&& final(self)@ == #[trigger] old(self)@.v1_edge_set(
                        i as int,
                        at_start,
                        wanted,
                        a,
                        optional(text),
                    )
                }),
    {
        reveal(StateView::v1_edge_set);
        reveal(edge_calls);
        let ghost base = self@;
        self.save_for_undo();
        let alone = find_neighbour(self.timeline.v1_clips.len(), i, at_start).is_none();
        let length = self.timeline.set_v1_edge(i, at_start, wanted, amounts_of);
        let ghost after_timeline = self@.timeline;
        let ghost a = choose|a: TrimAmounts|
            ({
                let after = #[trigger] v1_edge(base.timeline, i as int, at_start, wanted, a);
                &&& v1_edge_room(base.timeline, i as int, at_start) matches Some(room)
                    ==> call_ensures(amounts_of, (room, wanted), a)
                &&& after_timeline == (TimelineView { v1_clips: after.v1_clips, ..base.timeline })
                &&& match after.length {
                    Ok(s) => length == Ok::<Scalar, GlobalStateError>(s),
                    Err(no) => length matches Err(e) && refusal(e, no),
                }
            });
        let text = edge_text(&length, alone, wanted, shortened);
        let ghost said = v1_edge(base.timeline, i as int, at_start, wanted, a).length;
        self.ui_notice = edge_notice(&length, &text, Ghost(said));
        self.drop_pending_trim(length.is_ok());
        proof {
            assert(edge_calls(
                base.timeline,
                i as int,
                at_start,
                wanted,
                amounts_of,
                shortened,
                a,
                text,
            ));
            assert(self@ == base.v1_edge_set(i as int, at_start, wanted, a, optional(text)));
        }
    }

    fn drop_pending_trim(&mut self, yes: bool)
        ensures
            final(self)@ == (StateView {
                pending_trim_to_fit: if yes {
                    None
                } else {
                    old(self)@.pending_trim_to_fit
                },
                ..old(self)@
            }),
    {
        if yes {
            self.pending_trim_to_fit = None;
        }
    }

    fn set_selected_overlay_edge(&mut self, id: u64, at_start: bool, wanted: Scalar)
        requires
            old(self)@.timeline.lane_count() <= usize::MAX,
        ensures
            final(self)@ == old(self)@.overlay_edge_set(id, at_start, wanted),
            final(self)@.timeline.v1_clips == old(self)@.timeline.v1_clips,
    {
        reveal(StateView::overlay_edge_set);
        reveal(TimelineView::overlay_edge);
        self.save_for_undo();
        let found = self.timeline.set_overlay_edge(id, at_start, wanted);
        self.drop_notice(found);
    }

    fn drop_notice(&mut self, yes: bool)
        ensures
            final(self)@ == (StateView {
                ui_notice: if yes {
                    None
                } else {
                    old(self)@.ui_notice
                },
                ..old(self)@
            }),
    {
        if yes {
            self.ui_notice = None;
        }
    }

    fn set_selected_edge<
        F: Fn(DissolveRoom, Scalar) -> TrimAmounts,
        G: Fn(Scalar, Scalar) -> Option<String>,
    >(&mut self, at_start: bool, val: Scalar, amounts_of: F, shortened: G)
        requires
            old(self)@.timeline.lane_count() <= usize::MAX,
            forall|room: DissolveRoom, s: Scalar| #[trigger] call_requires(amounts_of, (room, s)),
            stays_within(amounts_of),
            forall|s: Scalar, t: Scalar| #[trigger] call_requires(shortened, (s, t)),
        ensures
            exists|a: TrimAmounts, text: Option<String>|
                ({
                    &&& old(self)@.uses_v1_edge(at_start, wanted_length(val)) ==> edge_calls(
                        old(self)@.timeline,
                        place_of(
                            old(self)@.timeline.v1_clips,
                            old(self)@.selection.selected_clip_id->0,
                        ),
                        at_start,
                        wanted_length(val),
                        amounts_of,
                        shortened,
                        a,
                        text,
                    )
                    &&& final(self)@ == #[trigger] old(self)@.selected_edge_set(
                        at_start,
                        wanted_length(val),
                        a,
                        optional(text),
                    )
                }),
    {
        let ghost base = self@;
        let ghost none = crate::time::Duration { nanos: 0 };
        let ghost nothing = TrimAmounts {
            restore_left: none,
            restore_right: none,
            trim_left: none,
            trim_right: none,
        };
        let ghost silent: Option<String> = None;
        let wanted = val.max(Scalar { bits: ZERO });
        assert(wanted == wanted_length(val));
        let id = match self.selection.selected_clip_id {
            Some(id) => id,
            None => {
                assert(self@ == base.selected_edge_set(at_start, wanted, nothing, optional(silent)));
                return;
            },
        };
        let i = find_clip(&self.timeline.v1_clips, id);
        if i >= self.timeline.v1_clips.len() {
            self.set_selected_overlay_edge(id, at_start, wanted);
            assert(self@ == base.selected_edge_set(at_start, wanted, nothing, optional(silent)));
            return;
        }
        let no_transition = Scalar { bits: NO_TRANSITION };
        if find_neighbour(self.timeline.v1_clips.len(), i, at_start).is_none() && !wanted.le(
            no_transition,
        ) {
            self.ui_notice = Some(owned("Dissolve requires an adjacent clip on V1."));
            assert(self@ == base.selected_edge_set(at_start, wanted, nothing, optional(silent)));
            return;
        }
        self.set_selected_v1_edge(i, at_start, wanted, amounts_of, shortened);
        proof {
            let (a, text) = choose|a: TrimAmounts, text: Option<String>|
                ({
                    &&& edge_calls(
                        base.timeline,
                        i as int,
                        at_start,
                        wanted,
                        amounts_of,
                        shortened,
                        a,
                        text,
                    )
                    &&& self@ == #[trigger] base.v1_edge_set(
                        i as int,
                        at_start,
                        wanted,
                        a,
                        optional(text),
                    )
                });
            assert(self@ == base.selected_edge_set(at_start, wanted, a, optional(text)));
        }
    }

    /// Sets the dissolve at the start of the selected clip, and with it that at the end of
    /// the clip before it, unless it is `unchanged`. On the main track the two are trimmed
    /// or restored as `amounts_of` says; `shortened` gives the length in words where it
    /// becomes shorter than wanted.
    pub fn set_selected_clip_dissolve_in<
        F: Fn(DissolveRoom, Scalar) -> TrimAmounts,
        G: Fn(Scalar, Scalar) -> Option<String>,
    >(&mut self, val: Scalar, unchanged: bool, amounts_of: F, shortened: G)
        requires
            old(self)@.timeline.lane_count() <= usize::MAX,
            forall|room: DissolveRoom, s: Scalar| #[trigger] call_requires(amounts_of, (room, s)),
            stays_within(amounts_of),
            forall|s: Scalar, t: Scalar| #[trigger] call_requires(shortened, (s, t)),
        ensures
            unchanged ==> final(self)@ == old(self)@,
            !unchanged ==> exists|a: TrimAmounts, text: Option<String>|
                ({
                    &&& old(self)@.uses_v1_edge(true, wanted_length(val)) ==> edge_calls(
                        old(self)@.timeline,
                        place_of(
                            old(self)@.timeline.v1_clips,
                            old(self)@.selection.selected_clip_id->0,
                        ),
                        true,
                        wanted_length(val),
                        amounts_of,
                        shortened,
                        a,
                        text,
                    )
                    &&& final(self)@ == #[trigger] old(self)@.selected_edge_set(
                        true,
                        wanted_length(val),
                        a,
                        optional(text),
                    )
                }),
            lane_adds_up(old(self)@.timeline.v1_clips) ==> media_kept(
                old(self)@.timeline.v1_clips,
                final(self)@.timeline.v1_clips,
            ),
    {
        proof {
            lemma_media_kept_same(self@.timeline.v1_clips);
        }
        if !unchanged {
            let ghost base = self@;
            self.set_selected_edge(true, val, amounts_of, shortened);
            proof {
                lemma_selected_edge_kept(base, self@, true, val, amounts_of, shortened);
            }
        }
    }

    /// Sets the dissolve at the end of the selected clip, and with it that at the start of
    /// the clip after it, unless it is `unchanged`. On the main track the two are trimmed
    /// or restored as `amounts_of` says; `shortened` gives the length in words where it
    /// becomes shorter than wanted.
    pub fn set_selected_clip_dissolve_out<
        F: Fn(DissolveRoom, Scalar) -> TrimAmounts,
        G: Fn(Scalar, Scalar) -> Option<String>,
    >(&mut self, val: Scalar, unchanged: bool, amounts_of: F, shortened: G)
        requires
            old(self)@.timeline.lane_count() <= usize::MAX,
            forall|room: DissolveRoom, s: Scalar| #[trigger] call_requires(amounts_of, (room, s)),
            stays_within(amounts_of),
            forall|s: Scalar, t: Scalar| #[trigger] call_requires(shortened, (s, t)),
        ensures
            unchanged ==> final(self)@ == old(self)@,
            !unchanged ==> exists|a: TrimAmounts, text: Option<String>|
                ({
                    &&& old(self)@.uses_v1_edge(false, wanted_length(val)) ==> edge_calls(
                        old(self)@.timeline,
                        place_of(
                            old(self)@.timeline.v1_clips,
                            old(self)@.selection.selected_clip_id->0,
                        ),
                        false,
                        wanted_length(val),
                        amounts_of,
                        shortened,
                        a,
                        text,
                    )
                    &&& final(self)@ == #[trigger] old(self)@.selected_edge_set(
                        false,
                        wanted_length(val),
                        a,
                        optional(text),
                    )
                }),
            lane_adds_up(old(self)@.timeline.v1_clips) ==> media_kept(
                old(self)@.timeline.v1_clips,
                final(self)@.timeline.v1_clips,
            ),
    {
        proof {
            lemma_media_kept_same(self@.timeline.v1_clips);
        }
        if !unchanged {
            let ghost base = self@;
            self.set_selected_edge(false, val, amounts_of, shortened);
            proof {
                lemma_selected_edge_kept(base, self@, false, val, amounts_of, shortened);
            }
        }
    }
}

/// A dissolve at the selected clip keeps the stretches of files that the clips of the main track
/// have to show, where the clips are trimmed within their room.
pub proof fn selected_edge_keeps_media(
    s: StateView,
    at_start: bool,
    wanted: Scalar,
    a: TrimAmounts,
    text: Option<Seq<char>>,
)
    requires
        lane_adds_up(s.timeline.v1_clips),
        s.uses_v1_edge(at_start, wanted) ==> (v1_edge_room(
            s.timeline,
            place_of(s.timeline.v1_clips, s.selection.selected_clip_id->0),
            at_start,
        ) matches Some(room) ==> a.within(room)),
    ensures
        media_kept(
            s.timeline.v1_clips,
            s.selected_edge_set(at_start, wanted, a, text).timeline.v1_clips,
        ),
{
    let v1 = s.timeline.v1_clips;
    lemma_media_kept_same(v1);
    saving_keeps_all_else(s, false);
    if let Some(id) = s.selection.selected_clip_id {
        let i = place_of(v1, id);
        crate::lists::lemma_first(v1, |c: ClipView| c.id == id);
        if i >= v1.len() {
            reveal(StateView::overlay_edge_set);
            reveal(TimelineView::overlay_edge);
        } else if s.uses_v1_edge(at_start, wanted) {
            reveal(StateView::v1_edge_set);
            edge_keeps_media(s.timeline, i, at_start, wanted, a);
        }
    }
}

proof fn lemma_selected_edge_kept<
    F: Fn(DissolveRoom, Scalar) -> TrimAmounts,
    G: Fn(Scalar, Scalar) -> Option<String>,
>(s: StateView, after: StateView, at_start: bool, val: Scalar, amounts_of: F, shortened: G)
    requires
        stays_within(amounts_of),
        exists|a: TrimAmounts, text: Option<String>|
            ({
                &&& s.uses_v1_edge(at_start, wanted_length(val)) ==> edge_calls(
                    s.timeline,
                    place_of(s.timeline.v1_clips, s.selection.selected_clip_id->0),
                    at_start,
                    wanted_length(val),
                    amounts_of,
                    shortened,
                    a,
                    text,
                )
                &&& after == #[trigger] s.selected_edge_set(
                    at_start,
                    wanted_length(val),
                    a,
                    optional(text),
                )
            }),
    ensures
        lane_adds_up(s.timeline.v1_clips) ==> media_kept(
            s.timeline.v1_clips,
            after.timeline.v1_clips,
        ),
{
    reveal(stays_within);
    reveal(edge_calls);
    let wanted = wanted_length(val);
    let (a, text) = choose|a: TrimAmounts, text: Option<String>|
        ({
            &&& s.uses_v1_edge(at_start, wanted) ==> edge_calls(
                s.timeline,
                place_of(s.timeline.v1_clips, s.selection.selected_clip_id->0),
                at_start,
                wanted,
                amounts_of,
                shortened,
                a,
                text,
            )
            &&& after == #[trigger] s.selected_edge_set(at_start, wanted, a, optional(text))
        });
    if lane_adds_up(s.timeline.v1_clips) {
        selected_edge_keeps_media(s, at_start, wanted, a, optional(text));
    }
}

impl StateView {
    /// Whether a dissolve of the wanted length at the selected clip is one on the main
    /// track that can be tried.
    pub open spec fn uses_v1_edge(self, at_start: bool, wanted: Scalar) -> bool {
        match self.selection.selected_clip_id {
            None => false,
            Some(id) => {
                let v1 = self.timeline.v1_clips;
                let i = place_of(v1, id);
                i < v1.len() && (neighbour(v1.len() as int, i, at_start) is Some
                    || is_no_transition(wanted))
            },
        }
    }
}

} // verus!
