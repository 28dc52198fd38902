//! Links between the main track's clips and their sound, made once for timelines
//! that have none.
use crate::clip::{Clip, ClipView};
use crate::copying::views;
use crate::lanes::Lane;
use crate::state::{GlobalState, StateView};
use crate::text::{joined, same_text};
use crate::tracks::TimelineView;
use vstd::prelude::*;

verus! {

broadcast use crate::copying::group_views;

/// Whether `a` is the sound of the picture `v`, with no link yet.
pub open spec fn is_sound_of(a: ClipView, v: ClipView) -> bool {
    &&& a.link_group_id is None
    &&& a.label == "(Audio) "@ + v.label
    &&& a.file_path == v.file_path
    &&& a.source_in == v.source_in
    &&& a.duration == v.duration
}

/// How far apart two clips start.
pub open spec fn distance(a: ClipView, v: ClipView) -> int {
    if a.start >= v.start {
        a.start - v.start
    } else {
        v.start - a.start
    }
}

/// Whether the sound with this index has its picture already.
pub open spec fn is_taken(pairs: Seq<(int, int)>, k: int) -> bool {
    exists|i: int| 0 <= i < pairs.len() && (#[trigger] pairs[i]).1 == k
}

/// Of the first `n` sounds, the one that starts nearest to the picture `v`, the
/// first of equals.
pub open spec fn nearest(v: ClipView, sounds: Lane, pairs: Seq<(int, int)>, n: int) -> Option<int>
    decreases n,
{
    if n <= 0 {
        None
    } else {
        let best = nearest(v, sounds, pairs, n - 1);
        let k = n - 1;
        if !is_taken(pairs, k) && is_sound_of(sounds[k], v) && (best is None || distance(
            sounds[k],
            v,
        ) < distance(sounds[best->0], v)) {
            Some(k)
        } else {
            best
        }
    }
}

/// The pairs of the first `n` pictures with their sounds.
pub open spec fn av_pairs(pictures: Lane, sounds: Lane, n: int) -> Seq<(int, int)>
    decreases n,
{
    if n <= 0 {
        Seq::empty()
    } else {
        let pairs = av_pairs(pictures, sounds, n - 1);
        let v = pictures[n - 1];
        if v.link_group_id is Some {
            pairs
        } else {
            match nearest(v, sounds, pairs, sounds.len() as int) {
                Some(k) => pairs.push((n - 1, k)),
                None => pairs,
            }
        }
    }
}

/// The clip in another link group.
pub open spec fn in_group(c: ClipView, group: Option<u64>) -> ClipView {
    ClipView { link_group_id: group, ..c }
}

impl TimelineView {
    /// The timeline with a picture and a sound of the first audio track linked.
    pub open spec fn pair_linked(self, pair: (int, int)) -> TimelineView {
        let group = Some(self.free_group());
        let a1 = self.audio_tracks[0];
        TimelineView {
            v1_clips: self.v1_clips.update(pair.0, in_group(self.v1_clips[pair.0], group)),
            audio_tracks: self.audio_tracks.update(
                0,
                a1.with_clips(a1.clips.update(pair.1, in_group(a1.clips[pair.1], group))),
            ),
            ..self
        }
    }

    /// The timeline with the first `n` pairs linked, one after the other.
    pub open spec fn pairs_linked(self, pairs: Seq<(int, int)>, n: int) -> TimelineView
        decreases n,
    {
        if n <= 0 {
            self
        } else {
            self.pairs_linked(pairs, n - 1).pair_linked(pairs[n - 1])
        }
    }
}

impl StateView {
    /// The state with the pictures of the main track linked with their sounds, which
    /// is done once.
    #[verifier::opaque]
    pub open spec fn repaired(self) -> StateView {
        let t = self.timeline;
        if self.primary_av_links_repair_done || t.audio_tracks.len() == 0 || t.v1_clips.len() == 0
            || t.audio_tracks[0].clips.len() == 0 {
            self
        } else {
            let pairs = av_pairs(t.v1_clips, t.audio_tracks[0].clips, t.v1_clips.len() as int);
            StateView {
                timeline: t.pairs_linked(pairs, pairs.len() as int),
                primary_av_links_repair_done: true,
                ..self
            }
        }
    }
}

/// Whether two timelines differ at most in the link groups of their clips.
pub open spec fn same_but_groups(a: TimelineView, b: TimelineView) -> bool {
    &&& a.lane_count() == b.lane_count()
    &&& a.audio_tracks.len() == b.audio_tracks.len()
    &&& forall|i: int|
        0 <= i < a.lane_count() ==> (#[trigger] a.lane(i)).len() == b.lane(i).len()
    &&& forall|i: int, k: int|
        0 <= i < a.lane_count() && 0 <= k < a.lane(i).len() ==> #[trigger] b.lane(i)[k] == in_group(
            a.lane(i)[k],
            b.lane(i)[k].link_group_id,
        )
    &&& b.playhead == a.playhead
    &&& b.subtitle_tracks == a.subtitle_tracks
    &&& b.semantic_clips == a.semantic_clips
    &&& b.layer_effect_clips == a.layer_effect_clips
}

proof fn lemma_nearest_in_range(v: ClipView, sounds: Lane, pairs: Seq<(int, int)>, n: int)
    ensures
        nearest(v, sounds, pairs, n) is Some ==> 0 <= nearest(v, sounds, pairs, n)->0 < n,
    decreases n,
{
    if n > 0 {
        lemma_nearest_in_range(v, sounds, pairs, n - 1);
    }
}

proof fn lemma_pairs_in_range(pictures: Lane, sounds: Lane, n: int)
    ensures
        forall|i: int|
            0 <= i < av_pairs(pictures, sounds, n).len() ==> 0 <= (#[trigger] av_pairs(
                pictures,
                sounds,
                n,
            )[i]).0 < n && 0 <= av_pairs(pictures, sounds, n)[i].1 < sounds.len(),
    decreases n,
{
    if n > 0 {
        let pairs = av_pairs(pictures, sounds, n - 1);
        lemma_pairs_in_range(pictures, sounds, n - 1);
        lemma_nearest_in_range(pictures[n - 1], sounds, pairs, sounds.len() as int);
    }
}

proof fn lemma_pairs_linked(t: TimelineView, pairs: Seq<(int, int)>, n: int)
    requires
        0 <= n <= pairs.len(),
        t.audio_tracks.len() > 0,
        forall|i: int|
            0 <= i < pairs.len() ==> 0 <= (#[trigger] pairs[i]).0 < t.v1_clips.len() && 0
                <= pairs[i].1 < t.audio_tracks[0].clips.len(),
    ensures
        same_but_groups(t, t.pairs_linked(pairs, n)),
    decreases n,
{
    if n > 0 {
        lemma_pairs_linked(t, pairs, n - 1);
        let before = t.pairs_linked(pairs, n - 1);
        let after = before.pair_linked(pairs[n - 1]);
        assert(before.lane(0).len() == t.lane(0).len());
        assert(before.lane(1).len() == t.lane(1).len());
        assert forall|i: int| 0 <= i < t.lane_count() implies (#[trigger] t.lane(i)).len()
            == after.lane(i).len() by {
            assert(t.lane(i).len() == before.lane(i).len());
        }
        assert forall|i: int, k: int|
            0 <= i < t.lane_count() && 0 <= k < t.lane(i).len() implies #[trigger] after.lane(i)[k]
            == in_group(t.lane(i)[k], after.lane(i)[k].link_group_id) by {
            assert(before.lane(i)[k] == in_group(t.lane(i)[k], before.lane(i)[k].link_group_id));
        }
    }
}

/// Linking pictures with their sounds changes nothing but link groups.
pub proof fn repairing_changes_only_groups(s: StateView)
    ensures
        same_but_groups(s.timeline, s.repaired().timeline),
        s.repaired() == (StateView {
            timeline: s.repaired().timeline,
            primary_av_links_repair_done: s.repaired().primary_av_links_repair_done,
            ..s
        }),
{
    reveal(StateView::repaired);
    let t = s.timeline;
    if !(s.primary_av_links_repair_done || t.audio_tracks.len() == 0 || t.v1_clips.len() == 0
        || t.audio_tracks[0].clips.len() == 0) {
        let pairs = av_pairs(t.v1_clips, t.audio_tracks[0].clips, t.v1_clips.len() as int);
        lemma_pairs_in_range(t.v1_clips, t.audio_tracks[0].clips, t.v1_clips.len() as int);
        lemma_pairs_linked(t, pairs, pairs.len() as int);
    }
}

/// Linking pictures with their sounds a second time changes nothing.
pub proof fn repairing_twice_is_once(s: StateView)
    requires
        s.repaired().primary_av_links_repair_done,
    ensures
        s.repaired().repaired() == s.repaired(),
{
    reveal(StateView::repaired);
}

/// A picture and its sound, by their indices.
#[derive(Clone, Copy, Debug)]
struct Pair {
    picture: usize,
    sound: usize,
}

spec fn pairs_view(pairs: Seq<Pair>) -> Seq<(int, int)> {
    pairs.map_values(|p: Pair| (p.picture as int, p.sound as int))
}

fn pair_has(pairs: &Vec<Pair>, k: usize) -> (yes: bool)
    ensures
        yes == is_taken(pairs_view(pairs@), k as int),
{
    let mut i: usize = 0;
    while i < pairs.len()
        invariant
            i <= pairs.len(),
            forall|j: int| 0 <= j < i ==> (#[trigger] pairs_view(pairs@)[j]).1 != k,
        decreases pairs.len() - i,
    {
        if pairs[i].sound == k {
            assert(pairs_view(pairs@)[i as int].1 == k);
            return true;
        }
        i = i + 1;
    }
    false
}

fn is_sound(a: &Clip, v: &Clip, expected_label: &String) -> (yes: bool)
    requires
        expected_label@ == "(Audio) "@ + v.label@,
    ensures
        yes == is_sound_of(a@, v@),
{
    a.link_group_id.is_none() && same_text(&a.label, expected_label) && same_text(
        &a.file_path,
        &v.file_path,
    ) && a.source_in.nanos == v.source_in.nanos && a.duration.nanos == v.duration.nanos
}

fn find_nearest(v: &Clip, sounds: &Vec<Clip>, pairs: &Vec<Pair>) -> (best: Option<usize>)
    ensures
        best is Some == nearest(
            v@,
            views(sounds@),
            pairs_view(pairs@),
            sounds@.len() as int,
        ) is Some,
        best is Some ==> best->0 == nearest(
            v@,
            views(sounds@),
            pairs_view(pairs@),
            sounds@.len() as int,
        )->0 && best->0 < sounds@.len(),
{
    let expected = joined("(Audio) ", v.label.as_str());
    let mut best: Option<usize> = None;
    let mut k: usize = 0;
    while k < sounds.len()
        invariant
            k <= sounds.len(),
            expected@ == "(Audio) "@ + v.label@,
            best is Some == nearest(v@, views(sounds@), pairs_view(pairs@), k as int) is Some,
            best is Some ==> best->0 == nearest(
                v@,
                views(sounds@),
                pairs_view(pairs@),
                k as int,
            )->0 && best->0 < k,
        decreases sounds.len() - k,
    {
        if !pair_has(pairs, k) && is_sound(&sounds[k], v, &expected) {
            let nearer = match best {
                Some(b) => sounds[k].start.abs_diff(v.start).nanos < sounds[b].start.abs_diff(
                    v.start,
                ).nanos,
                None => true,
            };
            if nearer {
                best = Some(k);
            }
        }
        k = k + 1;
    }
    best
}

fn find_pairs(pictures: &Vec<Clip>, sounds: &Vec<Clip>) -> (pairs: Vec<Pair>)
    ensures
        pairs_view(pairs@) == av_pairs(views(pictures@), views(sounds@), pictures@.len() as int),
        forall|i: int|
            0 <= i < pairs.len() ==> (#[trigger] pairs@[i]).picture < pictures@.len()
                && pairs@[i].sound < sounds@.len(),
{
    let mut pairs: Vec<Pair> = Vec::new();
    let mut i: usize = 0;
    assert(pairs_view(pairs@) =~= Seq::<(int, int)>::empty());
    while i < pictures.len()
        invariant
            i <= pictures.len(),
            pairs_view(pairs@) == av_pairs(views(pictures@), views(sounds@), i as int),
            forall|j: int|
                0 <= j < pairs.len() ==> (#[trigger] pairs@[j]).picture < pictures@.len()
                    && pairs@[j].sound < sounds@.len(),
        decreases pictures.len() - i,
    {
        if pictures[i].link_group_id.is_none() {
            if let Some(k) = find_nearest(&pictures[i], sounds, &pairs) {
                let ghost before = pairs@;
                pairs.push(Pair { picture: i, sound: k });
                assert(pairs_view(pairs@) =~= pairs_view(before).push((i as int, k as int)));
            }
        }
        i = i + 1;
    }
    pairs
}

impl GlobalState {
    /// Links the pictures of the main track with their sounds, once.
    pub(crate) fn repair_missing_primary_av_links(&mut self)
        requires
            old(self)@.timeline.lane_count() <= usize::MAX,
        ensures
            final(self)@ == old(self)@.repaired(),
            final(self)@.timeline.lane_count() == old(self)@.timeline.lane_count(),
            final(self)@.next_clip_id == old(self)@.next_clip_id,
    {
        reveal(StateView::repaired);
        if self.primary_av_links_repair_done {
            return;
        }
        if self.timeline.audio_tracks.len() == 0 || self.timeline.v1_clips.len() == 0
            || self.timeline.audio_tracks[0].clips.len() == 0 {
            return;
        }
        let ghost base = self@.timeline;
        let pairs = find_pairs(&self.timeline.v1_clips, &self.timeline.audio_tracks[0].clips);
        let ghost all = pairs_view(pairs@);
        let mut i: usize = 0;
        while i < pairs.len()
            invariant
                i <= pairs.len(),
                all == pairs_view(pairs@),
                base.lane_count() <= usize::MAX,
                self@ == (StateView { timeline: base.pairs_linked(all, i as int), ..old(self)@ }),
                self@.timeline.v1_clips.len() == base.v1_clips.len(),
                self@.timeline.audio_tracks.len() == base.audio_tracks.len(),
                self@.timeline.video_tracks.len() == base.video_tracks.len(),
                base.audio_tracks.len() > 0,
                self@.timeline.audio_tracks[0].clips.len() == base.audio_tracks[0].clips.len(),
                forall|j: int|
                    0 <= j < pairs.len() ==> (#[trigger] pairs@[j]).picture < base.v1_clips.len()
                        && pairs@[j].sound < base.audio_tracks[0].clips.len(),
            decreases pairs.len() - i,
        {
            let ghost before = self@.timeline;
            let pair = pairs[i];
            assert(all[i as int] == (pair.picture as int, pair.sound as int));
            let group = self.timeline.allocate_next_link_group_id();
            let ghost v1 = self.timeline.v1_clips@;
            self.timeline.v1_clips[pair.picture].link_group_id = Some(group);
            assert(self.timeline.v1_clips@ =~= v1.update(
                pair.picture as int,
                self.timeline.v1_clips@[pair.picture as int],
            ));
            let ghost audio = self.timeline.audio_tracks@;
            let ghost a1 = self.timeline.audio_tracks@[0].clips@;
            self.timeline.audio_tracks[0].clips[pair.sound].link_group_id = Some(group);
            assert(self.timeline.audio_tracks@[0].clips@ =~= a1.update(
                pair.sound as int,
                self.timeline.audio_tracks@[0].clips@[pair.sound as int],
            ));
            assert(self.timeline.audio_tracks@ =~= audio.update(
                0,
                self.timeline.audio_tracks@[0],
            ));
            assert(self@.timeline == before.pair_linked(all[i as int]));
            i = i + 1;
        }
        self.primary_av_links_repair_done = true;
    }
}

} // verus!
