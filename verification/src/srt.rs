//! New subtitles, one by one or from a subtitle file.
use crate::copying::views;
use crate::errors::GlobalStateError;
use crate::lists::{first, lemma_first, lemma_first_is, some};
use crate::order::{ordered, rank, sort_by_time, Timed};
use crate::placing::{next_number, take_id};
use crate::scalar::Scalar;
use crate::state::{GlobalState, SelectionView, StateView};
use crate::subtitle::{
    sort_subtitles, subtitles_by_start, SubtitleClip, SubtitleClipView, SubtitleTrack,
    SubtitleTrackView,
};
use crate::text::{decimal, decimal_text, joined};
use crate::time::{least, Duration, MAX_NANOS};
use crate::tracks::TimelineView;
use vstd::prelude::*;

verus! {

broadcast use crate::copying::group_views;

/// The bit pattern of -0.3, the place of a new subtitle from left to right.
pub const SUBTITLE_X: u32 = 0xbe99_999a;

/// The bit pattern of 0.35, the place of a new subtitle from top to bottom.
pub const SUBTITLE_Y: u32 = 0x3eb3_3333;

/// The bit pattern of 48, the size of a new subtitle.
pub const SUBTITLE_SIZE: u32 = 0x4240_0000;

/// A white subtitle at the usual place.
pub open spec fn new_subtitle(id: u64, text: Seq<char>, start: int, duration: int) -> SubtitleClipView {
    SubtitleClipView {
        id,
        text,
        start,
        duration,
        pos_x: Scalar { bits: SUBTITLE_X },
        pos_y: Scalar { bits: SUBTITLE_Y },
        font_size: Scalar { bits: SUBTITLE_SIZE },
        color_rgba: (255, 255, 255, 255),
        font_family: None,
        font_path: None,
        group_id: None,
    }
}

fn make_subtitle(id: u64, text: String, start: Duration, duration: Duration) -> (clip: SubtitleClip)
    ensures
        clip@ == new_subtitle(id, text@, start@, duration@),
{
    SubtitleClip {
        id,
        text,
        start,
        duration,
        pos_x: Scalar { bits: SUBTITLE_X },
        pos_y: Scalar { bits: SUBTITLE_Y },
        font_size: Scalar { bits: SUBTITLE_SIZE },
        color_rgba: (255, 255, 255, 255),
        font_family: None,
        font_path: None,
        group_id: None,
    }
}

impl StateView {
    /// The state with a new subtitle on a track; it is selected.
    pub open spec fn subtitle_added(
        self,
        track: int,
        start: int,
        duration: int,
        text: Seq<char>,
    ) -> StateView {
        if track >= self.timeline.subtitle_tracks.len() {
            self
        } else {
            let s = self.saved(false);
            StateView {
                timeline: s.timeline.with_subtitles(
                    track,
                    subtitles_by_start(
                        s.timeline.subtitle_tracks[track].clips.push(
                            new_subtitle(s.next_clip_id, text, start, duration),
                        ),
                    ),
                ),
                next_clip_id: next_number(s.next_clip_id),
                selection: SelectionView::only_subtitle(s.next_clip_id),
                ..s
            }
        }
    }
}

impl GlobalState {
    /// Adds a subtitle to a track.
    pub fn add_subtitle_clip(
        &mut self,
        track_index: usize,
        start: Duration,
        duration: Duration,
        text: String,
    ) -> (id: Option<u64>)
        ensures
            id == if track_index < old(self)@.timeline.subtitle_tracks.len() {
                Some(old(self)@.next_clip_id)
            } else {
                None
            },
            final(self)@ == old(self)@.subtitle_added(
                track_index as int,
                start@,
                duration@,
                text@,
            ),
    {
        if track_index >= self.timeline.subtitle_tracks.len() {
            return None;
        }
        self.save_for_undo();
        let id = take_id(&mut self.next_clip_id);
        let ghost before = self.timeline.subtitle_tracks@;
        self.timeline.subtitle_tracks[track_index].clips.push(
            make_subtitle(id, text, start, duration),
        );
        sort_subtitles(&mut self.timeline.subtitle_tracks[track_index].clips);
        assert(self.timeline.subtitle_tracks@ =~= before.update(
            track_index as int,
            self.timeline.subtitle_tracks@[track_index as int],
        ));
        self.selection.take_subtitle(Some(id));
        Some(id)
    }
}

// ---------------------------------------------------------------------------
// Subtitle files
// ---------------------------------------------------------------------------

/// A subtitle of a subtitle file.
#[derive(Debug)]
pub struct SrtCue {
    pub start: Duration,
    pub end: Duration,
    pub text: String,
}

/// What a subtitle of a subtitle file holds.
pub ghost struct SrtCueView {
    pub start: int,
    pub end: int,
    pub text: Seq<char>,
}

impl View for SrtCue {
    type V = SrtCueView;

    open spec fn view(&self) -> SrtCueView {
        SrtCueView { start: self.start@, end: self.end@, text: self.text@ }
    }
}

impl Timed for SrtCue {
    open spec fn at(&self) -> int {
        self.start@
    }

    fn time(&self) -> (t: Duration) {
        self.start
    }
}

/// Whether the subtitle is shown together with the cue.
pub open spec fn overlaps(c: SubtitleClipView, cue: SrtCueView) -> bool {
    cue.start < least(c.end(), MAX_NANOS as int) && c.start < cue.end
}

/// Whether the track has a subtitle that is shown together with the cue.
pub open spec fn is_occupied(track: SubtitleTrackView, cue: SrtCueView) -> bool {
    some(track.clips, |c: SubtitleClipView| overlaps(c, cue))
}

/// How far an import is.
pub ghost struct ImportView {
    pub tracks: Seq<SubtitleTrackView>,
    /// Which of the tracks got subtitles.
    pub touched: Seq<bool>,
    pub next_id: u64,
    pub imported: int,
    pub last: Option<u64>,
}

/// The first track that is free while the cue is shown.
pub open spec fn free_track(tracks: Seq<SubtitleTrackView>, cue: SrtCueView) -> int {
    first(tracks, |t: SubtitleTrackView| !is_occupied(t, cue))
}

impl ImportView {
    /// The import with a new track, where none of the others is free.
    pub open spec fn with_room(self, cue: SrtCueView) -> ImportView {
        if free_track(self.tracks, cue) < self.tracks.len() {
            self
        } else {
            ImportView {
                tracks: self.tracks.push(
                    SubtitleTrackView {
                        name: "S"@ + decimal(self.tracks.len() + 1int),
                        clips: Seq::empty(),
                    },
                ),
                touched: self.touched.push(false),
                ..self
            }
        }
    }

    /// The import with the cue on the first free track. One that ends before it starts
    /// is left out.
    pub open spec fn with_cue(self, cue: SrtCueView) -> ImportView {
        if cue.end <= cue.start {
            self
        } else {
            let at = free_track(self.tracks, cue);
            let room = self.with_room(cue);
            let track = room.tracks[at];
            ImportView {
                tracks: room.tracks.update(
                    at,
                    SubtitleTrackView {
                        clips: track.clips.push(
                            new_subtitle(self.next_id, cue.text, cue.start, cue.end - cue.start),
                        ),
                        ..track
                    },
                ),
                touched: room.touched.update(at, true),
                next_id: next_number(self.next_id),
                imported: self.imported + 1,
                last: Some(self.next_id),
            }
        }
    }

    /// The import with the first `n` cues.
    pub open spec fn with_cues(self, cues: Seq<SrtCueView>, n: int) -> ImportView
        decreases n,
    {
        if n <= 0 {
            self
        } else {
            self.with_cues(cues, n - 1).with_cue(cues[n - 1])
        }
    }

    /// The tracks, those that got subtitles in order of start.
    pub open spec fn sorted_tracks(self) -> Seq<SubtitleTrackView> {
        Seq::new(
            self.tracks.len(),
            |k: int|
                if self.touched[k] {
                    SubtitleTrackView {
                        clips: subtitles_by_start(self.tracks[k].clips),
                        ..self.tracks[k]
                    }
                } else {
                    self.tracks[k]
                },
        )
    }
}

impl StateView {
    /// The import of the cues, in order of their starts.
    pub open spec fn import_of(self, cues: Seq<SrtCueView>) -> ImportView {
        let start = ImportView {
            tracks: self.timeline.subtitle_tracks,
            touched: Seq::new(self.timeline.subtitle_tracks.len(), |k: int| false),
            next_id: self.next_clip_id,
            imported: 0,
            last: None,
        };
        start.with_cues(ordered(cues, |c: SrtCueView| c.start), cues.len() as int)
    }

    /// The state with the cues on the subtitle tracks.
    pub open spec fn srt_imported(self, cues: Seq<SrtCueView>) -> StateView {
        let s = self.saved(false);
        let done = s.import_of(cues);
        StateView {
            timeline: TimelineView { subtitle_tracks: done.sorted_tracks(), ..s.timeline },
            next_clip_id: done.next_id,
            selection: s.selection.then_subtitle(done.last),
            ..s
        }
    }
}

fn cue_overlaps(c: &SubtitleClip, cue: &SrtCue) -> (yes: bool)
    ensures
        yes == overlaps(c@, cue@),
{
    cue.start.nanos < c.start.saturating_add(c.duration).nanos && c.start.nanos < cue.end.nanos
}

fn track_is_occupied(track: &SubtitleTrack, cue: &SrtCue) -> (yes: bool)
    ensures
        yes == is_occupied(track@, cue@),
{
    let ghost p = |c: SubtitleClipView| overlaps(c, cue@);
    let mut i: usize = 0;
    while i < track.clips.len()
        invariant
            i <= track.clips.len(),
            p == (|c: SubtitleClipView| overlaps(c, cue@)),
            forall|j: int| 0 <= j < i ==> !p(#[trigger] track@.clips[j]),
        decreases track.clips.len() - i,
    {
        assert(track@.clips[i as int] == track.clips@[i as int]@);
        if cue_overlaps(&track.clips[i], cue) {
            assert(p(track@.clips[i as int]));
            return true;
        }
        i = i + 1;
    }
    false
}

/// How far an import is.
struct Import {
    tracks: Vec<SubtitleTrack>,
    touched: Vec<bool>,
    next_id: u64,
    imported: usize,
    last: Option<u64>,
}

impl Import {
    spec fn view(&self) -> ImportView {
        ImportView {
            tracks: views(self.tracks@),
            touched: self.touched@,
            next_id: self.next_id,
            imported: self.imported as int,
            last: self.last,
        }
    }

    fn find_free_track(&self, cue: &SrtCue) -> (at: usize)
        ensures
            at == free_track(self@.tracks, cue@),
            at <= self.tracks.len(),
    {
        let ghost p = |t: SubtitleTrackView| !is_occupied(t, cue@);
        let mut i: usize = 0;
        while i < self.tracks.len()
            invariant
                i <= self.tracks.len(),
                p == (|t: SubtitleTrackView| !is_occupied(t, cue@)),
                forall|j: int| 0 <= j < i ==> !p(#[trigger] self@.tracks[j]),
            decreases self.tracks.len() - i,
        {
            assert(self@.tracks[i as int] == self.tracks@[i as int]@);
            if !track_is_occupied(&self.tracks[i], cue) {
                proof {
                    lemma_first_is(self@.tracks, p, i as int);
                }
                return i;
            }
            i = i + 1;
        }
        proof {
            lemma_first_is(self@.tracks, p, i as int);
        }
        i
    }

    fn take_cue(&mut self, cue: SrtCue)
        requires
            old(self).touched.len() == old(self).tracks.len(),
            old(self).tracks.len() < usize::MAX,
            old(self).imported < usize::MAX,
        ensures
            final(self)@ == old(self)@.with_cue(cue@),
            final(self).touched.len() == final(self).tracks.len(),
            final(self).tracks.len() <= old(self).tracks.len() + 1,
            final(self).imported <= old(self).imported + 1,
    {
        if cue.end.nanos <= cue.start.nanos {
            return;
        }
        let ghost base = self@;
        let id = take_id(&mut self.next_id);
        let at = self.find_free_track(&cue);
        if at == self.tracks.len() {
            let name = joined("S", decimal_text(at as u64 + 1).as_str());
            self.tracks.push(SubtitleTrack::new(name));
            self.touched.push(false);
        }
        let ghost room = self.tracks@;
        let duration = cue.end.minus(cue.start);
        self.tracks[at].clips.push(make_subtitle(id, cue.text, cue.start, duration));
        assert(self.tracks@ =~= room.update(at as int, self.tracks@[at as int]));
        self.touched.set(at, true);
        self.imported = self.imported + 1;
        self.last = Some(id);
    }

    fn sort_touched(&mut self)
        requires
            old(self).touched.len() == old(self).tracks.len(),
        ensures
            views(final(self).tracks@) == old(self)@.sorted_tracks(),
            final(self).next_id == old(self).next_id,
            final(self).imported == old(self).imported,
            final(self).last == old(self).last,
    {
        let ghost base = self@;
        let mut k: usize = 0;
        while k < self.tracks.len()
            invariant
                k <= self.tracks.len(),
                self.tracks.len() == base.tracks.len(),
                self.touched@ == base.touched,
                base.touched.len() == base.tracks.len(),
                self.next_id == base.next_id,
                self.imported == base.imported,
                self.last == base.last,
                forall|j: int|
                    0 <= j < k ==> #[trigger] views(self.tracks@)[j] == base.sorted_tracks()[j],
                forall|j: int|
                    k <= j < base.tracks.len() ==> #[trigger] views(self.tracks@)[j]
                        == base.tracks[j],
            decreases self.tracks.len() - k,
        {
            assert(views(self.tracks@)[k as int] == base.tracks[k as int]);
            if self.touched[k] {
                let ghost before = self.tracks@;
                sort_subtitles(&mut self.tracks[k].clips);
                assert(self.tracks@ =~= before.update(k as int, self.tracks@[k as int]));
            }
            k = k + 1;
        }
        assert(views(self.tracks@) =~= base.sorted_tracks());
    }
}

/// Takes the cues, in order of their starts, into the subtitle tracks.
fn import_cues(tracks: Vec<SubtitleTrack>, next_id: u64, cues: Vec<SrtCue>, Ghost(s): Ghost<
    StateView,
>) -> (done: Import)
    requires
        views(tracks@) == s.timeline.subtitle_tracks,
        next_id == s.next_clip_id,
        tracks.len() + cues.len() < usize::MAX,
    ensures
        views(done.tracks@) == s.import_of(views(cues@)).sorted_tracks(),
        done.next_id == s.import_of(views(cues@)).next_id,
        done.imported == s.import_of(views(cues@)).imported,
        done.last == s.import_of(views(cues@)).last,
{
    let ghost unsorted = cues@;
    let mut rest = cues;
    sort_by_time(&mut rest);
    let ghost all = views(rest@);
    proof {
        crate::order::lemma_ordered_views(
            unsorted,
            |c: SrtCue| c.at(),
            |c: SrtCueView| c.start,
        );
        crate::order::ordered_is_sorted_permutation(unsorted, |c: SrtCue| c.at());
    }
    let mut touched: Vec<bool> = Vec::new();
    let mut k: usize = 0;
    while k < tracks.len()
        invariant
            k <= tracks.len(),
            touched@ == Seq::new(k as nat, |j: int| false),
        decreases tracks.len() - k,
    {
        touched.push(false);
        k = k + 1;
        assert(touched@ =~= Seq::new(k as nat, |j: int| false));
    }
    let ghost n0 = tracks.len() as int;
    let mut import = Import { tracks, touched, next_id, imported: 0, last: None };
    let ghost begin = import@;
    let ghost total = rest@.len();
    while rest.len() > 0
        invariant
            rest@.len() <= total,
            total == all.len(),
            views(rest@) == all.skip(total - rest@.len()),
            import.touched.len() == import.tracks.len(),
            import@ == begin.with_cues(all, total - rest@.len()),
            0 <= n0,
            n0 + total < usize::MAX,
            import.tracks.len() <= n0 + (total - rest@.len()),
            import.imported <= total - rest@.len(),
        decreases rest.len(),
    {
        let ghost done = total - rest@.len();
        assert(views(rest@)[0] == all[done]);
        let cue = rest.remove(0);
        assert(cue@ == all[done]);
        import.take_cue(cue);
        assert(views(rest@) =~= all.skip(done + 1));
    }
    import.sort_touched();
    import
}

impl GlobalState {
    /// Takes the subtitles of a subtitle file, which was read as `parsed`, each into the
    /// first track that is free while it is shown. Says how many there were.
    pub fn import_srt(&mut self, parsed: Result<Vec<SrtCue>, String>) -> (result: Result<
        usize,
        GlobalStateError,
    >)
        requires
            parsed matches Ok(cues) ==> old(self)@.timeline.subtitle_tracks.len() + cues.len()
                < usize::MAX,
        ensures
            match parsed {
                Ok(cues) => {
                    &&& result is Ok
                    &&& result->Ok_0 == old(self)@.saved(false).import_of(views(cues@)).imported
                    &&& final(self)@ == old(self)@.srt_imported(views(cues@))
                },
                Err(message) => {
                    &&& result matches Err(e)
                    &&& e matches GlobalStateError::SrtParse { message: said }
                    &&& said@ == message@
                    &&& final(self)@ == old(self)@
                },
            },
    {
        let cues = match parsed {
            Ok(cues) => cues,
            Err(message) => {
                return Err(GlobalStateError::SrtParse { message });
            },
        };
        self.save_for_undo();
        let ghost s = self@;
        let mut tracks: Vec<SubtitleTrack> = Vec::new();
        std::mem::swap(&mut self.timeline.subtitle_tracks, &mut tracks);
        let done = import_cues(tracks, self.next_clip_id, cues, Ghost(s));
        self.timeline.subtitle_tracks = done.tracks;
        self.next_clip_id = done.next_id;
        self.selection.take_subtitle(done.last);
        Ok(done.imported)
    }
}

// ---------------------------------------------------------------------------
// What an import keeps
// ---------------------------------------------------------------------------

/// Whether the two subtitles are never shown together.
pub open spec fn apart(a: SubtitleClipView, b: SubtitleClipView) -> bool {
    a.end() <= b.start || b.end() <= a.start
}

/// Whether no two subtitles are shown together.
pub open spec fn all_apart(clips: Seq<SubtitleClipView>) -> bool {
    forall|i: int, j: int|
        0 <= i < j < clips.len() ==> apart(#[trigger] clips[i], #[trigger] clips[j])
}

/// Whether every subtitle ends at a time that can be written down.
pub open spec fn ends_fit(clips: Seq<SubtitleClipView>) -> bool {
    forall|i: int| 0 <= i < clips.len() ==> (#[trigger] clips[i]).end() <= MAX_NANOS
}

proof fn lemma_apart_insert(clips: Seq<SubtitleClipView>, at: int, x: SubtitleClipView)
    requires
        0 <= at <= clips.len(),
        all_apart(clips),
        forall|i: int| 0 <= i < clips.len() ==> apart(#[trigger] clips[i], x),
    ensures
        all_apart(clips.insert(at, x)),
{
    let out = clips.insert(at, x);
    assert forall|i: int, j: int| 0 <= i < j < out.len() implies apart(
        #[trigger] out[i],
        #[trigger] out[j],
    ) by {
        let a = if i < at {
            i
        } else {
            i - 1
        };
        let b = if j < at {
            j
        } else {
            j - 1
        };
        if i == at {
            assert(out[j] == clips[b]);
        } else if j == at {
            assert(out[i] == clips[a]);
        } else {
            assert(out[i] == clips[a]);
            assert(out[j] == clips[b]);
        }
    }
}

proof fn lemma_apart_ordered(clips: Seq<SubtitleClipView>)
    requires
        all_apart(clips),
    ensures
        all_apart(subtitles_by_start(clips)),
    decreases clips.len(),
{
    if clips.len() > 0 {
        let key = |c: SubtitleClipView| c.start;
        let x = clips.last();
        let front = clips.drop_last();
        assert forall|i: int, j: int| 0 <= i < j < front.len() implies apart(
            #[trigger] front[i],
            #[trigger] front[j],
        ) by {
            assert(apart(clips[i], clips[j]));
        }
        lemma_apart_ordered(front);
        let p = |c: SubtitleClipView| apart(c, x);
        assert forall|i: int| 0 <= i < front.len() implies p(#[trigger] front[i]) by {
            assert(apart(clips[i], clips[clips.len() - 1]));
        }
        crate::razor::lemma_ordered_all(front, key, p);
        let sorted = ordered(front, key);
        crate::order::lemma_rank(sorted, key(x), key);
        assert forall|i: int| 0 <= i < sorted.len() implies apart(#[trigger] sorted[i], x) by {
            assert(p(sorted[i]));
        }
        lemma_apart_insert(sorted, rank(sorted, key(x), key), x);
    }
}

spec fn tracks_are_apart(tracks: Seq<SubtitleTrackView>) -> bool {
    forall|k: int|
        0 <= k < tracks.len() ==> all_apart((#[trigger] tracks[k]).clips) && ends_fit(
            tracks[k].clips,
        )
}

proof fn lemma_cue_keeps_apart(import: ImportView, cue: SrtCueView)
    requires
        tracks_are_apart(import.tracks),
        import.touched.len() == import.tracks.len(),
        cue.end <= MAX_NANOS,
    ensures
        tracks_are_apart(import.with_cue(cue).tracks),
        import.with_cue(cue).touched.len() == import.with_cue(cue).tracks.len(),
{
    if cue.end > cue.start {
        let free = |t: SubtitleTrackView| !is_occupied(t, cue);
        let at = free_track(import.tracks, cue);
        lemma_first(import.tracks, free);
        let room = import.with_room(cue);
        let track = room.tracks[at];
        let x = new_subtitle(import.next_id, cue.text, cue.start, cue.end - cue.start);
        let p = |c: SubtitleClipView| overlaps(c, cue);
        assert(all_apart(track.clips) && ends_fit(track.clips));
        assert forall|i: int| 0 <= i < track.clips.len() implies apart(
            #[trigger] track.clips[i],
            x,
        ) by {
            assert(!p(track.clips[i]));
        }
        assert(track.clips.push(x) =~= track.clips.insert(track.clips.len() as int, x));
        lemma_apart_insert(track.clips, track.clips.len() as int, x);
        let after = import.with_cue(cue);
        assert forall|k: int| 0 <= k < after.tracks.len() implies all_apart(
            (#[trigger] after.tracks[k]).clips,
        ) && ends_fit(after.tracks[k].clips) by {
            if k != at {
                assert(after.tracks[k] == import.tracks[k]);
            }
        }
    }
}

proof fn lemma_cues_keep_apart(import: ImportView, cues: Seq<SrtCueView>, n: int)
    requires
        0 <= n <= cues.len(),
        tracks_are_apart(import.tracks),
        import.touched.len() == import.tracks.len(),
        forall|i: int| 0 <= i < cues.len() ==> (#[trigger] cues[i]).end <= MAX_NANOS,
    ensures
        tracks_are_apart(import.with_cues(cues, n).tracks),
        import.with_cues(cues, n).touched.len() == import.with_cues(cues, n).tracks.len(),
    decreases n,
{
    if n > 0 {
        lemma_cues_keep_apart(import, cues, n - 1);
        lemma_cue_keeps_apart(import.with_cues(cues, n - 1), cues[n - 1]);
    }
}

/// Where no two subtitles of a track are shown together, none are after an import.
pub proof fn import_keeps_subtitles_apart(s: StateView, cues: Seq<SrtCueView>, k: int)
    requires
        forall|i: int|
            0 <= i < s.timeline.subtitle_tracks.len() ==> all_apart(
                (#[trigger] s.timeline.subtitle_tracks[i]).clips,
            ) && ends_fit(s.timeline.subtitle_tracks[i].clips),
        forall|i: int| 0 <= i < cues.len() ==> (#[trigger] cues[i]).end <= MAX_NANOS,
        0 <= k < s.srt_imported(cues).timeline.subtitle_tracks.len(),
    ensures
        all_apart(s.srt_imported(cues).timeline.subtitle_tracks[k].clips),
{
    let saved = s.saved(false);
    crate::state::saving_keeps_all_else(s, false);
    let begin = ImportView {
        tracks: saved.timeline.subtitle_tracks,
        touched: Seq::new(saved.timeline.subtitle_tracks.len(), |k: int| false),
        next_id: saved.next_clip_id,
        imported: 0,
        last: None,
    };
    let key = |c: SrtCueView| c.start;
    let p = |c: SrtCueView| c.end <= MAX_NANOS;
    assert forall|i: int| 0 <= i < cues.len() implies p(#[trigger] cues[i]) by {
        assert(cues[i].end <= MAX_NANOS);
    }
    crate::razor::lemma_ordered_all(cues, key, p);
    let sorted = ordered(cues, key);
    assert forall|i: int| 0 <= i < sorted.len() implies (#[trigger] sorted[i]).end <= MAX_NANOS by {
        assert(p(sorted[i]));
    }
    lemma_cues_keep_apart(begin, sorted, cues.len() as int);
    let done = saved.import_of(cues);
    assert(all_apart(done.tracks[k].clips));
    lemma_apart_ordered(done.tracks[k].clips);
}

// ---------------------------------------------------------------------------
// What an import brings
// ---------------------------------------------------------------------------

/// Whether a subtitle is that of a cue: it shows its text from its start to its end, alone and in
/// white.
pub open spec fn is_subtitle_of(c: SubtitleClipView, cue: SrtCueView) -> bool {
    &&& cue.start < cue.end
    &&& c.start == cue.start
    &&& c.start + c.duration == cue.end
    &&& c.text == cue.text
    &&& c.color_rgba == (255u8, 255u8, 255u8, 255u8)
    &&& c.pos_x.bits == 0xbe99_999a
    &&& c.pos_y.bits == 0x3eb3_3333
    &&& c.font_size.bits == 0x4240_0000
    &&& c.font_family is None && c.font_path is None && c.group_id is None
}

/// Whether a track has the subtitle of a cue.
pub open spec fn has_subtitle_of(clips: Seq<SubtitleClipView>, cue: SrtCueView) -> bool {
    exists|j: int| 0 <= j < clips.len() && is_subtitle_of(#[trigger] clips[j], cue)
}

/// Whether tracks have all subtitles of others, each on its track, those of some cues, and no more.
/// The tracks keep their names, and tracks are added behind the others alone.
pub open spec fn is_import(
    before: Seq<SubtitleTrackView>,
    after: Seq<SubtitleTrackView>,
    cues: Seq<SrtCueView>,
) -> bool {
    &&& before.len() <= after.len()
    &&& forall|k: int| 0 <= k < before.len() ==> (#[trigger] after[k]).name == before[k].name
    &&& forall|k: int, j: int|
        0 <= k < before.len() && 0 <= j < before[k].clips.len() ==> after[k].clips.contains(
            #[trigger] before[k].clips[j],
        )
    &&& forall|i: int|
        0 <= i < cues.len() && (#[trigger] cues[i]).start < cues[i].end ==> exists|k: int|
            0 <= k < after.len() && has_subtitle_of((#[trigger] after[k]).clips, cues[i])
    &&& forall|k: int, j: int|
        0 <= k < after.len() && 0 <= j < after[k].clips.len() ==> is_old_or_cue(
            before,
            cues,
            k,
            #[trigger] after[k].clips[j],
        )
}

/// Whether a subtitle was on a track, or is that of a cue.
pub open spec fn is_old_or_cue(
    before: Seq<SubtitleTrackView>,
    cues: Seq<SrtCueView>,
    k: int,
    c: SubtitleClipView,
) -> bool {
    ||| k < before.len() && before[k].clips.contains(c)
    ||| exists|i: int| 0 <= i < cues.len() && is_subtitle_of(c, #[trigger] cues[i])
}

proof fn lemma_cue_imported(
    before: Seq<SubtitleTrackView>,
    import: ImportView,
    cues: Seq<SrtCueView>,
    n: int,
)
    requires
        0 <= n < cues.len(),
        is_import(before, import.tracks, cues.take(n)),
        import.touched.len() == import.tracks.len(),
    ensures
        is_import(before, import.with_cue(cues[n]).tracks, cues.take(n + 1)),
        import.with_cue(cues[n]).touched.len() == import.with_cue(cues[n]).tracks.len(),
{
    let cue = cues[n];
    let old_cues = cues.take(n);
    let new_cues = cues.take(n + 1);
    let after = import.with_cue(cue);
    assert forall|i: int| 0 <= i < n implies old_cues[i] == new_cues[i] by {}
    assert(new_cues[n] == cue);
    if cue.end <= cue.start {
        assert forall|i: int|
            0 <= i < new_cues.len() && (#[trigger] new_cues[i]).start
                < new_cues[i].end implies exists|k: int|
            0 <= k < after.tracks.len() && has_subtitle_of(
                (#[trigger] after.tracks[k]).clips,
                new_cues[i],
            ) by {
            assert(old_cues[i] == new_cues[i]);
        }
        assert forall|k: int, j: int|
            0 <= k < after.tracks.len() && 0 <= j < after.tracks[k].clips.len() implies is_old_or_cue(
            before,
            new_cues,
            k,
            #[trigger] after.tracks[k].clips[j],
        ) by {
            let c = import.tracks[k].clips[j];
            assert(is_old_or_cue(before, old_cues, k, c));
            lemma_old_or_cue(before, cues, n, k, c);
        }
    } else {
        let free = |t: SubtitleTrackView| !is_occupied(t, cue);
        let at = free_track(import.tracks, cue);
        lemma_first(import.tracks, free);
        let room = import.with_room(cue);
        let x = new_subtitle(import.next_id, cue.text, cue.start, cue.end - cue.start);
        let grown = room.tracks[at].clips.push(x);
        assert(after.tracks[at].clips == grown);
        assert(grown[grown.len() - 1] == x);
        assert(is_subtitle_of(x, cue));
        assert(has_subtitle_of(after.tracks[at].clips, cue));
        assert forall|k: int, j: int|
            0 <= k < import.tracks.len() && 0 <= j < import.tracks[k].clips.len() implies
            after.tracks[k].clips[j] == #[trigger] import.tracks[k].clips[j] by {}
        assert forall|k: int, j: int|
            0 <= k < before.len() && 0 <= j < before[k].clips.len() implies after.tracks[k].clips.contains(
            #[trigger] before[k].clips[j],
        ) by {
            let c = before[k].clips[j];
            assert(import.tracks[k].clips.contains(c));
            let m = choose|m: int|
                0 <= m < import.tracks[k].clips.len() && import.tracks[k].clips[m] == c;
            assert(after.tracks[k].clips[m] == import.tracks[k].clips[m]);
        }
        assert forall|k: int| 0 <= k < before.len() implies (#[trigger] after.tracks[k]).name
            == before[k].name by {
            assert(import.tracks[k].name == before[k].name);
        }
        assert forall|i: int|
            0 <= i < new_cues.len() && (#[trigger] new_cues[i]).start
                < new_cues[i].end implies exists|k: int|
            0 <= k < after.tracks.len() && has_subtitle_of(
                (#[trigger] after.tracks[k]).clips,
                new_cues[i],
            ) by {
            if i == n {
                assert(has_subtitle_of(after.tracks[at].clips, new_cues[i]));
            } else {
                assert(old_cues[i] == new_cues[i]);
                let k = choose|k: int|
                    0 <= k < import.tracks.len() && has_subtitle_of(
                        (#[trigger] import.tracks[k]).clips,
                        old_cues[i],
                    );
                let j = choose|j: int|
                    0 <= j < import.tracks[k].clips.len() && is_subtitle_of(
                        #[trigger] import.tracks[k].clips[j],
                        old_cues[i],
                    );
                assert(after.tracks[k].clips[j] == import.tracks[k].clips[j]);
                assert(has_subtitle_of(after.tracks[k].clips, new_cues[i]));
            }
        }
        assert forall|k: int, j: int|
            0 <= k < after.tracks.len() && 0 <= j < after.tracks[k].clips.len() implies is_old_or_cue(
            before,
            new_cues,
            k,
            #[trigger] after.tracks[k].clips[j],
        ) by {
            let c = after.tracks[k].clips[j];
            if k == at && j == grown.len() - 1 {
                assert(is_subtitle_of(c, new_cues[n]));
            } else {
                assert(k < import.tracks.len());
                assert(c == import.tracks[k].clips[j]);
                assert(is_old_or_cue(before, old_cues, k, import.tracks[k].clips[j]));
                lemma_old_or_cue(before, cues, n, k, c);
            }
        }
    }
}

proof fn lemma_old_or_cue(
    before: Seq<SubtitleTrackView>,
    cues: Seq<SrtCueView>,
    n: int,
    k: int,
    c: SubtitleClipView,
)
    requires
        0 <= n < cues.len(),
        is_old_or_cue(before, cues.take(n), k, c),
    ensures
        is_old_or_cue(before, cues.take(n + 1), k, c),
{
    let a = cues.take(n);
    let b = cues.take(n + 1);
    if !(k < before.len() && before[k].clips.contains(c)) {
        let i = choose|i: int| 0 <= i < a.len() && is_subtitle_of(c, #[trigger] a[i]);
        assert(b[i] == a[i]);
    }
}

proof fn lemma_cues_imported(
    before: Seq<SubtitleTrackView>,
    import: ImportView,
    cues: Seq<SrtCueView>,
    n: int,
)
    requires
        0 <= n <= cues.len(),
        import.tracks == before,
        import.touched.len() == import.tracks.len(),
    ensures
        is_import(before, import.with_cues(cues, n).tracks, cues.take(n)),
        import.with_cues(cues, n).touched.len() == import.with_cues(cues, n).tracks.len(),
        import.with_cues(cues, n).imported == import.imported + cues.take(n).filter(
            |c: SrtCueView| c.start < c.end,
        ).len(),
    decreases n,
{
    let p = |c: SrtCueView| c.start < c.end;
    reveal(Seq::filter);
    if n > 0 {
        lemma_cues_imported(before, import, cues, n - 1);
        lemma_cue_imported(before, import.with_cues(cues, n - 1), cues, n - 1);
        assert(cues.take(n).drop_last() =~= cues.take(n - 1));
        assert(cues.take(n).last() == cues[n - 1]);
    } else {
        assert forall|k: int, j: int|
            0 <= k < before.len() && 0 <= j < before[k].clips.len() implies is_old_or_cue(
            before,
            cues.take(0),
            k,
            #[trigger] before[k].clips[j],
        ) by {
            assert(before[k].clips.contains(before[k].clips[j]));
        }
    }
}

/// An import shows each cue from its start to its end, on some track, keeps all subtitles where they
/// were, and brings no others. It tells how many cues it took: those that last.
pub proof fn import_shows_each_cue(s: StateView, cues: Seq<SrtCueView>)
    ensures
        is_import(
            s.timeline.subtitle_tracks,
            s.srt_imported(cues).timeline.subtitle_tracks,
            cues,
        ),
        s.saved(false).import_of(cues).imported == cues.filter(
            |c: SrtCueView| c.start < c.end,
        ).len(),
        s.srt_imported(cues).timeline == (TimelineView {
            subtitle_tracks: s.srt_imported(cues).timeline.subtitle_tracks,
            ..s.timeline
        }),
{
    broadcast use vstd::seq_lib::group_to_multiset_ensures;

    let saved = s.saved(false);
    crate::state::saving_keeps_all_else(s, false);
    let before = s.timeline.subtitle_tracks;
    let begin = ImportView {
        tracks: before,
        touched: Seq::new(before.len(), |k: int| false),
        next_id: saved.next_clip_id,
        imported: 0,
        last: None,
    };
    let key = |c: SrtCueView| c.start;
    let sorted = ordered(cues, key);
    crate::order::ordered_is_sorted_permutation(cues, key);
    let n = cues.len() as int;
    lemma_cues_imported(before, begin, sorted, n);
    assert(sorted.take(n) =~= sorted);
    crate::razor::lemma_filter_ordered(cues, key, |c: SrtCueView| c.start < c.end);
    let done = begin.with_cues(sorted, n);
    assert(saved.import_of(cues) == done);
    let after = done.sorted_tracks();
    let by = |c: SubtitleClipView| c.start;
    assert forall|k: int, c: SubtitleClipView| 0 <= k < after.len() implies (
    #[trigger] after[k].clips.contains(c) <==> done.tracks[k].clips.contains(c)) by {
        let clips = done.tracks[k].clips;
        crate::order::ordered_is_sorted_permutation(clips, by);
        assert(clips.contains(c) <==> clips.to_multiset().count(c) > 0);
        let o = ordered(clips, by);
        assert(o.contains(c) <==> o.to_multiset().count(c) > 0);
    }
    assert forall|c: SrtCueView| cues.contains(c) <==> #[trigger] sorted.contains(c) by {
        assert(cues.contains(c) <==> cues.to_multiset().count(c) > 0);
        assert(sorted.contains(c) <==> sorted.to_multiset().count(c) > 0);
    }
    assert forall|k: int, j: int| 0 <= k < before.len() && 0 <= j < before[k].clips.len() implies
        after[k].clips.contains(#[trigger] before[k].clips[j]) by {
        assert(done.tracks[k].clips.contains(before[k].clips[j]));
    }
    assert forall|k: int| 0 <= k < before.len() implies (#[trigger] after[k]).name
        == before[k].name by {
        assert(done.tracks[k].name == before[k].name);
    }
    assert forall|i: int|
        0 <= i < cues.len() && (#[trigger] cues[i]).start < cues[i].end implies exists|k: int|
        0 <= k < after.len() && has_subtitle_of((#[trigger] after[k]).clips, cues[i]) by {
        assert(cues.contains(cues[i]));
        assert(sorted.contains(cues[i]));
        let m = choose|m: int| 0 <= m < sorted.len() && sorted[m] == cues[i];
        let k = choose|k: int|
            0 <= k < done.tracks.len() && has_subtitle_of(
                (#[trigger] done.tracks[k]).clips,
                sorted[m],
            );
        let j = choose|j: int|
            0 <= j < done.tracks[k].clips.len() && is_subtitle_of(
                #[trigger] done.tracks[k].clips[j],
                sorted[m],
            );
        let c = done.tracks[k].clips[j];
        assert(done.tracks[k].clips.contains(c));
        assert(after[k].clips.contains(c));
        let q = choose|q: int| 0 <= q < after[k].clips.len() && after[k].clips[q] == c;
        assert(is_subtitle_of(after[k].clips[q], cues[i]));
        assert(has_subtitle_of(after[k].clips, cues[i]));
    }
    assert forall|k: int, j: int|
        0 <= k < after.len() && 0 <= j < after[k].clips.len() implies is_old_or_cue(
        before,
        cues,
        k,
        #[trigger] after[k].clips[j],
    ) by {
        let c = after[k].clips[j];
        assert(after[k].clips.contains(c));
        assert(done.tracks[k].clips.contains(c));
        let q = choose|q: int| 0 <= q < done.tracks[k].clips.len() && done.tracks[k].clips[q] == c;
        assert(is_old_or_cue(before, sorted, k, done.tracks[k].clips[q]));
        if !(k < before.len() && before[k].clips.contains(c)) {
            let i = choose|i: int| 0 <= i < sorted.len() && is_subtitle_of(c, #[trigger] sorted[i]);
            assert(sorted.contains(sorted[i]));
            assert(cues.contains(sorted[i]));
            let m = choose|m: int| 0 <= m < cues.len() && cues[m] == sorted[i];
            assert(is_subtitle_of(c, cues[m]));
        }
    }
}

} // verus!
