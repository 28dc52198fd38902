//! Edits of the selected subtitle, of its group, and of the volume of sounds.
use crate::clip::{Clip, ClipView};
use crate::clip_effects::FOUR;
use crate::copying::{copy_text, optional, views};
use crate::effect::{MINUS_ONE, ONE, QUARTER, ZERO};
use crate::lists::{holds, last_id, last_of};
use crate::moves::{find_clip, find_subtitle, place_of, subtitle_place};
use crate::placing::{next_number, take_id};
use crate::scalar::Scalar;
use crate::state::{GlobalState, Selection, SelectionView, StateView};
use crate::subtitle::{SubtitleClip, SubtitleClipView, SubtitleGroupTransform, SubtitleTrackView};
use crate::text::owned;
use crate::tracks::{AudioTrackView, Timeline, TimelineView};
use vstd::prelude::*;

verus! {

broadcast use {crate::copying::group_views, vstd::std_specs::hash::group_hash_axioms};

/// The bit pattern of 8.
pub const EIGHT: u32 = 0x4100_0000;

/// The bit pattern of 256.
pub const LARGEST_FONT: u32 = 0x4380_0000;

/// The bit pattern of -60.
pub const SOFTEST: u32 = 0xc270_0000;

/// The bit pattern of 12.
pub const LOUDEST: u32 = 0x4140_0000;

/// A change of a subtitle.
#[derive(Debug)]
pub enum SubtitleEdit {
    Text(String),
    PosX(Scalar),
    PosY(Scalar),
    FontSize(Scalar),
    Color((u8, u8, u8, u8)),
    Font { path: Option<String>, family: Option<String> },
    Group(u64),
}

/// A change of a subtitle.
pub ghost enum SubtitleEditView {
    Text(Seq<char>),
    PosX(Scalar),
    PosY(Scalar),
    FontSize(Scalar),
    Color((u8, u8, u8, u8)),
    Font { path: Option<Seq<char>>, family: Option<Seq<char>> },
    Group(u64),
}

impl View for SubtitleEdit {
    type V = SubtitleEditView;

    open spec fn view(&self) -> SubtitleEditView {
        match *self {
            SubtitleEdit::Text(t) => SubtitleEditView::Text(t@),
            SubtitleEdit::PosX(s) => SubtitleEditView::PosX(s),
            SubtitleEdit::PosY(s) => SubtitleEditView::PosY(s),
            SubtitleEdit::FontSize(s) => SubtitleEditView::FontSize(s),
            SubtitleEdit::Color(c) => SubtitleEditView::Color(c),
            SubtitleEdit::Font { path, family } => SubtitleEditView::Font {
                path: optional(path),
                family: optional(family),
            },
            SubtitleEdit::Group(g) => SubtitleEditView::Group(g),
        }
    }
}

/// A place on the screen, from -1 to 1.
pub open spec fn on_screen(s: Scalar) -> Scalar {
    s.clamped(Scalar { bits: MINUS_ONE }, Scalar { bits: ONE })
}

fn to_on_screen(s: Scalar) -> (r: Scalar)
    ensures
        r == on_screen(s),
{
    s.clamp(Scalar { bits: MINUS_ONE }, Scalar { bits: ONE })
}

/// A size of letters, from 8 to 256.
pub open spec fn font_size(s: Scalar) -> Scalar {
    s.clamped(Scalar { bits: EIGHT }, Scalar { bits: LARGEST_FONT })
}

/// The size of a group, from a quarter to four times.
pub open spec fn group_scale(s: Scalar) -> Scalar {
    s.clamped(Scalar { bits: QUARTER }, Scalar { bits: FOUR })
}

/// A volume in dB, from -60 to 12.
pub open spec fn gain(s: Scalar) -> Scalar {
    s.clamped(Scalar { bits: SOFTEST }, Scalar { bits: LOUDEST })
}

impl SubtitleClipView {
    /// The subtitle after the change.
    pub open spec fn edited(self, e: SubtitleEditView) -> SubtitleClipView {
        match e {
            SubtitleEditView::Text(text) => SubtitleClipView { text, ..self },
            SubtitleEditView::PosX(s) => SubtitleClipView { pos_x: on_screen(s), ..self },
            SubtitleEditView::PosY(s) => SubtitleClipView { pos_y: on_screen(s), ..self },
            SubtitleEditView::FontSize(s) => SubtitleClipView { font_size: font_size(s), ..self },
            SubtitleEditView::Color(color_rgba) => SubtitleClipView { color_rgba, ..self },
            SubtitleEditView::Font { path, family } => SubtitleClipView {
                font_path: path,
                font_family: family,
                ..self
            },
            SubtitleEditView::Group(g) => SubtitleClipView { group_id: Some(g), ..self },
        }
    }
}

impl SubtitleClip {
    fn edit(&mut self, e: &SubtitleEdit)
        ensures
            final(self)@ == old(self)@.edited(e@),
    {
        match e {
            SubtitleEdit::Text(t) => {
                self.text = owned(t.as_str());
            },
            SubtitleEdit::PosX(s) => {
                self.pos_x = to_on_screen(*s);
            },
            SubtitleEdit::PosY(s) => {
                self.pos_y = to_on_screen(*s);
            },
            SubtitleEdit::FontSize(s) => {
                self.font_size = s.clamp(Scalar { bits: EIGHT }, Scalar { bits: LARGEST_FONT });
            },
            SubtitleEdit::Color(c) => {
                self.color_rgba = *c;
            },
            SubtitleEdit::Font { path, family } => {
                self.font_path = copy_text(path);
                self.font_family = copy_text(family);
            },
            SubtitleEdit::Group(g) => {
                self.group_id = Some(*g);
            },
        }
    }
}

// ---------------------------------------------------------------------------
// One subtitle
// ---------------------------------------------------------------------------

/// The first track, from `i` on, that has the subtitle; the length where none has.
pub open spec fn subtitle_track_of(tracks: Seq<SubtitleTrackView>, id: u64, i: int) -> int
    decreases tracks.len() - i,
{
    if i >= tracks.len() {
        tracks.len() as int
    } else if subtitle_place(tracks[i].clips, id) < tracks[i].clips.len() {
        i
    } else {
        subtitle_track_of(tracks, id, i + 1)
    }
}

impl TimelineView {
    /// The subtitle with the id.
    pub open spec fn subtitle(self, id: u64) -> Option<SubtitleClipView> {
        let t = subtitle_track_of(self.subtitle_tracks, id, 0);
        if t < self.subtitle_tracks.len() {
            let clips = self.subtitle_tracks[t].clips;
            Some(clips[subtitle_place(clips, id)])
        } else {
            None
        }
    }

    /// The timeline with a change of the subtitle with the id.
    #[verifier::opaque]
    pub open spec fn with_subtitle_edit(self, id: u64, e: SubtitleEditView) -> TimelineView {
        let t = subtitle_track_of(self.subtitle_tracks, id, 0);
        if t < self.subtitle_tracks.len() {
            let track = self.subtitle_tracks[t];
            let k = subtitle_place(track.clips, id);
            TimelineView {
                subtitle_tracks: self.subtitle_tracks.update(
                    t,
                    SubtitleTrackView {
                        clips: track.clips.update(k, track.clips[k].edited(e)),
                        ..track
                    },
                ),
                ..self
            }
        } else {
            self
        }
    }

    /// The timeline with a change of all subtitles that are meant.
    #[verifier::opaque]
    pub open spec fn with_subtitle_edits(
        self,
        meant: spec_fn(SubtitleClipView) -> bool,
        e: SubtitleEditView,
    ) -> TimelineView {
        TimelineView {
            subtitle_tracks: self.subtitle_tracks.map_values(
                |t: SubtitleTrackView| track_edited(t, meant, e),
            ),
            ..self
        }
    }
}

/// The subtitle after the change, if it is meant.
pub open spec fn edited_if(
    c: SubtitleClipView,
    meant: spec_fn(SubtitleClipView) -> bool,
    e: SubtitleEditView,
) -> SubtitleClipView {
    if meant(c) {
        c.edited(e)
    } else {
        c
    }
}

/// The track with a change of all subtitles that are meant.
pub open spec fn track_edited(
    t: SubtitleTrackView,
    meant: spec_fn(SubtitleClipView) -> bool,
    e: SubtitleEditView,
) -> SubtitleTrackView {
    SubtitleTrackView {
        clips: t.clips.map_values(|c: SubtitleClipView| edited_if(c, meant, e)),
        ..t
    }
}

impl Timeline {
    fn find_subtitle_track(&self, id: u64) -> (t: usize)
        ensures
            t == subtitle_track_of(self@.subtitle_tracks, id, 0),
            t <= self.subtitle_tracks.len(),
            t < self.subtitle_tracks.len() ==> subtitle_place(
                self@.subtitle_tracks[t as int].clips,
                id,
            ) < self@.subtitle_tracks[t as int].clips.len(),
    {
        let mut i: usize = 0;
        while i < self.subtitle_tracks.len()
            invariant
                i <= self.subtitle_tracks.len(),
                subtitle_track_of(self@.subtitle_tracks, id, 0) == subtitle_track_of(
                    self@.subtitle_tracks,
                    id,
                    i as int,
                ),
            decreases self.subtitle_tracks.len() - i,
        {
            let clips = &self.subtitle_tracks[i].clips;
            if find_subtitle(clips, id) < clips.len() {
                return i;
            }
            i += 1;
        }
        i
    }

    fn the_subtitle(&self, id: u64) -> (c: Option<&SubtitleClip>)
        ensures
            match (c, self@.subtitle(id)) {
                (Some(a), Some(b)) => a@ == b,
                (None, None) => true,
                _ => false,
            },
    {
        let t = self.find_subtitle_track(id);
        if t < self.subtitle_tracks.len() {
            let at = find_subtitle(&self.subtitle_tracks[t].clips, id);
            Some(&self.subtitle_tracks[t].clips[at])
        } else {
            None
        }
    }

    fn edit_subtitle(&mut self, id: u64, e: &SubtitleEdit)
        ensures
            final(self)@ == old(self)@.with_subtitle_edit(id, e@),
    {
        reveal(TimelineView::with_subtitle_edit);
        let t = self.find_subtitle_track(id);
        if t < self.subtitle_tracks.len() {
            let ghost before = self.subtitle_tracks@;
            let ghost clips = self.subtitle_tracks@[t as int].clips@;
            let k = find_subtitle(&self.subtitle_tracks[t].clips, id);
            self.subtitle_tracks[t].clips[k].edit(e);
            let ghost after = self.subtitle_tracks@[t as int];
            assert(after.clips@ =~= clips.update(k as int, after.clips@[k as int]));
            assert(self.subtitle_tracks@ =~= before.update(t as int, after));
        }
    }

    fn edit_subtitles<F: Fn(&SubtitleClip) -> bool>(
        &mut self,
        test: F,
        Ghost(meant): Ghost<spec_fn(SubtitleClipView) -> bool>,
        e: &SubtitleEdit,
    )
        requires
            forall|c: &SubtitleClip| #[trigger] call_requires(test, (c,)),
            forall|c: &SubtitleClip, yes: bool| #[trigger]
                call_ensures(test, (c,), yes) ==> yes == meant(c@),
        ensures
            final(self)@ == old(self)@.with_subtitle_edits(meant, e@),
    {
        reveal(TimelineView::with_subtitle_edits);
        let ghost base = self@;
        let ghost before = self.subtitle_tracks@;
        let n: usize = self.subtitle_tracks.len();
        let mut i: usize = 0;
        while i < n
            invariant
                i <= n,
                n == before.len(),
                self.subtitle_tracks.len() == n,
                forall|c: &SubtitleClip| #[trigger] call_requires(test, (c,)),
                forall|c: &SubtitleClip, yes: bool| #[trigger]
                    call_ensures(test, (c,), yes) ==> yes == meant(c@),
                self@ == (TimelineView { subtitle_tracks: self@.subtitle_tracks, ..base }),
                forall|t: int|
                    0 <= t < i ==> (#[trigger] self.subtitle_tracks@[t])@ == track_edited(
                        before[t]@,
                        meant,
                        e@,
                    ),
                forall|t: int| i <= t < n ==> #[trigger] self.subtitle_tracks@[t] == before[t],
            decreases n - i,
        {
            let ghost now = self.subtitle_tracks@;
            edit_track(&mut self.subtitle_tracks[i].clips, &test, Ghost(meant), e);
            assert(self.subtitle_tracks@ =~= now.update(
                i as int,
                self.subtitle_tracks@[i as int],
            ));
            i += 1;
        }
        assert(views(self.subtitle_tracks@) =~= views(before).map_values(
            |t: SubtitleTrackView| track_edited(t, meant, e@),
        ));
    }
}

fn edit_track<F: Fn(&SubtitleClip) -> bool>(
    clips: &mut Vec<SubtitleClip>,
    test: &F,
    Ghost(meant): Ghost<spec_fn(SubtitleClipView) -> bool>,
    e: &SubtitleEdit,
)
    requires
        forall|c: &SubtitleClip| #[trigger] call_requires(*test, (c,)),
        forall|c: &SubtitleClip, yes: bool| #[trigger]
            call_ensures(*test, (c,), yes) ==> yes == meant(c@),
    ensures
        views(final(clips)@) == views(old(clips)@).map_values(
            |c: SubtitleClipView| edited_if(c, meant, e@),
        ),
{
    let ghost before = clips@;
    let n: usize = clips.len();
    let mut i: usize = 0;
    while i < n
        invariant
            i <= n,
            n == before.len(),
            clips.len() == n,
            forall|c: &SubtitleClip| #[trigger] call_requires(*test, (c,)),
            forall|c: &SubtitleClip, yes: bool| #[trigger]
                call_ensures(*test, (c,), yes) ==> yes == meant(c@),
            forall|k: int|
                0 <= k < i ==> (#[trigger] clips@[k])@ == edited_if(before[k]@, meant, e@),
            forall|k: int| i <= k < n ==> #[trigger] clips@[k] == before[k],
        decreases n - i,
    {
        if test(&clips[i]) {
            let ghost now = clips@;
            clips[i].edit(e);
            assert(clips@ =~= now.update(i as int, clips@[i as int]));
        }
        i += 1;
    }
    assert(views(clips@) =~= views(before).map_values(
        |c: SubtitleClipView| edited_if(c, meant, e@),
    ));
}

impl StateView {
    /// The subtitle that is selected.
    pub open spec fn selected_subtitle(self) -> Option<SubtitleClipView> {
        match self.selection.selected_subtitle_id {
            Some(id) => self.timeline.subtitle(id),
            None => None,
        }
    }

    /// The group of the subtitle that is selected.
    pub open spec fn selected_group(self) -> Option<u64> {
        match self.selected_subtitle() {
            Some(c) => c.group_id,
            None => None,
        }
    }

    /// The state with a change of the selected subtitle.
    pub open spec fn subtitle_edited(self, e: SubtitleEditView) -> StateView {
        match self.selection.selected_subtitle_id {
            Some(id) => {
                let s = self.saved(false);
                StateView { timeline: s.timeline.with_subtitle_edit(id, e), ..s }
            },
            None => self,
        }
    }

    /// The state with a change of all subtitles of the selected one's group.
    pub open spec fn group_edited(self, e: SubtitleEditView) -> StateView {
        match self.selected_group() {
            Some(g) => {
                let s = self.saved(false);
                StateView { timeline: s.timeline.with_subtitle_edits(in_group(g), e), ..s }
            },
            None => self,
        }
    }

    /// The state with another place or size of the selected subtitle's group.
    pub open spec fn group_moved(
        self,
        change: spec_fn(SubtitleGroupTransform) -> SubtitleGroupTransform,
    ) -> StateView {
        match self.selected_group() {
            Some(g) => {
                let s = self.saved(false);
                StateView { timeline: s.timeline.with_group(g, change), ..s }
            },
            None => self,
        }
    }
}

/// Whether a subtitle is in the group.
pub open spec fn in_group(g: u64) -> spec_fn(SubtitleClipView) -> bool {
    |c: SubtitleClipView| c.group_id == Some(g)
}

impl TimelineView {
    /// The timeline with another place or size of a group, if there is one.
    pub open spec fn with_group(
        self,
        g: u64,
        change: spec_fn(SubtitleGroupTransform) -> SubtitleGroupTransform,
    ) -> TimelineView {
        if self.subtitle_groups.contains_key(g) {
            TimelineView {
                subtitle_groups: self.subtitle_groups.insert(g, change(self.subtitle_groups[g])),
                ..self
            }
        } else {
            self
        }
    }

    /// The place and size of a group, if there is one.
    pub open spec fn group_transform(self, g: u64) -> Option<SubtitleGroupTransform> {
        if self.subtitle_groups.contains_key(g) {
            Some(self.subtitle_groups[g])
        } else {
            None
        }
    }

    /// The first subtitle of a group, from a track on.
    pub open spec fn first_of_group(self, g: u64, i: int) -> Option<SubtitleClipView>
        decreases self.subtitle_tracks.len() - i,
    {
        if i >= self.subtitle_tracks.len() {
            None
        } else {
            match crate::lists::found(self.subtitle_tracks[i].clips, in_group(g)) {
                Some(c) => Some(c),
                None => self.first_of_group(g, i + 1),
            }
        }
    }
}

impl Timeline {
    fn transform_of(&self, g: u64) -> (t: Option<SubtitleGroupTransform>)
        ensures
            t == self@.group_transform(g),
    {
        match self.subtitle_groups.get(&g) {
            Some(t) => Some(*t),
            None => None,
        }
    }

    fn set_transform(&mut self, g: u64, t: SubtitleGroupTransform)
        ensures
            final(self)@ == (TimelineView {
                subtitle_groups: old(self)@.subtitle_groups.insert(g, t),
                ..old(self)@
            }),
    {
        self.subtitle_groups.insert(g, t);
    }

    fn find_first_of_group(&self, g: u64) -> (c: Option<&SubtitleClip>)
        ensures
            match (c, self@.first_of_group(g, 0)) {
                (Some(a), Some(b)) => a@ == b,
                (None, None) => true,
                _ => false,
            },
    {
        let ghost p = in_group(g);
        let mut i: usize = 0;
        while i < self.subtitle_tracks.len()
            invariant
                i <= self.subtitle_tracks.len(),
                p == in_group(g),
                self@.first_of_group(g, 0) == self@.first_of_group(g, i as int),
            decreases self.subtitle_tracks.len() - i,
        {
            let clips = &self.subtitle_tracks[i].clips;
            let mut k: usize = 0;
            while k < clips.len()
                invariant
                    k <= clips.len(),
                    i < self.subtitle_tracks.len(),
                    clips == &self.subtitle_tracks@[i as int].clips,
                    p == in_group(g),
                    self@.first_of_group(g, 0) == self@.first_of_group(g, i as int),
                    forall|j: int| 0 <= j < k ==> !p(#[trigger] views(clips@)[j]),
                decreases clips.len() - k,
            {
                if clips[k].group_id == Some(g) {
                    proof {
                        assert(p(views(clips@)[k as int]));
                        crate::lists::lemma_first_is(views(clips@), p, k as int);
                    }
                    return Some(&clips[k]);
                }
                assert(!p(views(clips@)[k as int]));
                k += 1;
            }
            proof {
                crate::lists::lemma_first_is(views(clips@), p, k as int);
            }
            i += 1;
        }
        None
    }
}

impl GlobalState {
    fn selected_subtitle_clip(&self) -> (c: Option<&SubtitleClip>)
        ensures
            match (c, self@.selected_subtitle()) {
                (Some(a), Some(b)) => a@ == b,
                (None, None) => true,
                _ => false,
            },
    {
        match self.selection.selected_subtitle_id {
            Some(id) => self.timeline.the_subtitle(id),
            None => None,
        }
    }

    /// The text of the selected subtitle.
    pub fn get_selected_subtitle_text(&self) -> (text: Option<String>)
        ensures
            optional(text) == match self@.selected_subtitle() {
                Some(c) => Some(c.text),
                None => None,
            },
    {
        match self.selected_subtitle_clip() {
            Some(c) => Some(owned(c.text.as_str())),
            None => None,
        }
    }

    /// Changes the text of the selected subtitle; this is not an edit that can be taken
    /// back by itself.
    pub fn set_selected_subtitle_text(&mut self, text: String)
        ensures
            final(self)@ == match old(self)@.selection.selected_subtitle_id {
                Some(id) => StateView {
                    timeline: old(self)@.timeline.with_subtitle_edit(
                        id,
                        SubtitleEditView::Text(text@),
                    ),
                    ..old(self)@
                },
                None => old(self)@,
            },
    {
        if let Some(id) = self.selection.selected_subtitle_id {
            let e = SubtitleEdit::Text(text);
            self.timeline.edit_subtitle(id, &e);
        }
    }

    /// The place and the size of the selected subtitle.
    pub fn get_selected_subtitle_transform(&self) -> (t: Option<(Scalar, Scalar, Scalar)>)
        ensures
            t == match self@.selected_subtitle() {
                Some(c) => Some((c.pos_x, c.pos_y, c.font_size)),
                None => None,
            },
    {
        match self.selected_subtitle_clip() {
            Some(c) => Some((c.pos_x, c.pos_y, c.font_size)),
            None => None,
        }
    }

    /// The colour of the selected subtitle.
    pub fn get_selected_subtitle_color_rgba(&self) -> (color: Option<(u8, u8, u8, u8)>)
        ensures
            color == match self@.selected_subtitle() {
                Some(c) => Some(c.color_rgba),
                None => None,
            },
    {
        match self.selected_subtitle_clip() {
            Some(c) => Some(c.color_rgba),
            None => None,
        }
    }

    /// The group of the selected subtitle.
    pub fn get_selected_subtitle_group_id(&self) -> (g: Option<u64>)
        ensures
            g == self@.selected_group(),
    {
        match self.selected_subtitle_clip() {
            Some(c) => c.group_id,
            None => None,
        }
    }

    /// The colour of the first subtitle of the selected one's group.
    pub fn get_selected_subtitle_group_color_rgba(&self) -> (color: Option<(u8, u8, u8, u8)>)
        ensures
            color == match self@.selected_group() {
                Some(g) => match self@.timeline.first_of_group(g, 0) {
                    Some(c) => Some(c.color_rgba),
                    None => None,
                },
                None => None,
            },
    {
        match self.get_selected_subtitle_group_id() {
            Some(g) => match self.timeline.find_first_of_group(g) {
                Some(c) => Some(c.color_rgba),
                None => None,
            },
            None => None,
        }
    }

    /// The place and the size of the selected subtitle's group.
    pub fn get_selected_subtitle_group_transform(&self) -> (t: Option<(Scalar, Scalar, Scalar)>)
        ensures
            t == match self@.selected_group() {
                Some(g) => match self@.timeline.group_transform(g) {
                    Some(t) => Some((t.offset_x, t.offset_y, t.scale)),
                    None => None,
                },
                None => None,
            },
    {
        match self.get_selected_subtitle_group_id() {
            Some(g) => match self.timeline.transform_of(g) {
                Some(t) => Some((t.offset_x, t.offset_y, t.scale)),
                None => None,
            },
            None => None,
        }
    }

    fn move_group<F: Fn(SubtitleGroupTransform) -> SubtitleGroupTransform>(
        &mut self,
        change: F,
        Ghost(changed): Ghost<spec_fn(SubtitleGroupTransform) -> SubtitleGroupTransform>,
    )
        requires
            forall|t: SubtitleGroupTransform| #[trigger] call_requires(change, (t,)),
            forall|t: SubtitleGroupTransform, u: SubtitleGroupTransform| #[trigger]
                call_ensures(change, (t,), u) ==> u == changed(t),
        ensures
            final(self)@ == old(self)@.group_moved(changed),
    {
        if let Some(g) = self.get_selected_subtitle_group_id() {
            self.save_for_undo();
            if let Some(t) = self.timeline.transform_of(g) {
                self.timeline.set_transform(g, change(t));
            }
        }
    }

    /// Moves the selected subtitle's group from side to side.
    pub fn set_selected_subtitle_group_pos_x(&mut self, val: Scalar)
        ensures
            final(self)@ == old(self)@.group_moved(
                |t: SubtitleGroupTransform|
                    SubtitleGroupTransform { offset_x: on_screen(val), ..t },
            ),
    {
        let change = |t: SubtitleGroupTransform| -> (u: SubtitleGroupTransform)
            ensures
                u == (SubtitleGroupTransform { offset_x: on_screen(val), ..t }),
        {
            SubtitleGroupTransform {
                offset_x: to_on_screen(val),
                offset_y: t.offset_y,
                scale: t.scale,
            }
        };
        self.move_group(
            change,
            Ghost(
                |t: SubtitleGroupTransform|
                    SubtitleGroupTransform { offset_x: on_screen(val), ..t },
            ),
        );
    }

    /// Moves the selected subtitle's group up and down.
    pub fn set_selected_subtitle_group_pos_y(&mut self, val: Scalar)
        ensures
            final(self)@ == old(self)@.group_moved(
                |t: SubtitleGroupTransform|
                    SubtitleGroupTransform { offset_y: on_screen(val), ..t },
            ),
    {
        let change = |t: SubtitleGroupTransform| -> (u: SubtitleGroupTransform)
            ensures
                u == (SubtitleGroupTransform { offset_y: on_screen(val), ..t }),
        {
            SubtitleGroupTransform {
                offset_x: t.offset_x,
                offset_y: to_on_screen(val),
                scale: t.scale,
            }
        };
        self.move_group(
            change,
            Ghost(
                |t: SubtitleGroupTransform|
                    SubtitleGroupTransform { offset_y: on_screen(val), ..t },
            ),
        );
    }

    /// Changes the size of the selected subtitle's group.
    pub fn set_selected_subtitle_group_scale(&mut self, val: Scalar)
        ensures
            final(self)@ == old(self)@.group_moved(
                |t: SubtitleGroupTransform| SubtitleGroupTransform { scale: group_scale(val), ..t },
            ),
    {
        let change = |t: SubtitleGroupTransform| -> (u: SubtitleGroupTransform)
            ensures
                u == (SubtitleGroupTransform { scale: group_scale(val), ..t }),
        {
            SubtitleGroupTransform {
                offset_x: t.offset_x,
                offset_y: t.offset_y,
                scale: val.clamp(Scalar { bits: QUARTER }, Scalar { bits: FOUR }),
            }
        };
        self.move_group(
            change,
            Ghost(
                |t: SubtitleGroupTransform| SubtitleGroupTransform { scale: group_scale(val), ..t },
            ),
        );
    }

    fn edit_group(&mut self, e: SubtitleEdit)
        ensures
            final(self)@ == old(self)@.group_edited(e@),
    {
        if let Some(g) = self.get_selected_subtitle_group_id() {
            self.save_for_undo();
            let test = |c: &SubtitleClip| -> (yes: bool)
                ensures
                    yes == in_group(g)(c@),
            {
                c.group_id == Some(g)
            };
            self.timeline.edit_subtitles(test, Ghost(in_group(g)), &e);
        }
    }

    /// Changes the colour of all subtitles of the selected one's group.
    pub fn set_selected_subtitle_group_color_rgba(&mut self, color: (u8, u8, u8, u8))
        ensures
            final(self)@ == old(self)@.group_edited(SubtitleEditView::Color(color)),
    {
        self.edit_group(SubtitleEdit::Color(color));
    }

    /// Changes the letters of all subtitles of the selected one's group.
    pub fn set_selected_subtitle_group_font(
        &mut self,
        path: Option<String>,
        family: Option<String>,
    )
        ensures
            final(self)@ == old(self)@.group_edited(
                SubtitleEditView::Font { path: optional(path), family: optional(family) },
            ),
    {
        self.edit_group(SubtitleEdit::Font { path, family });
    }

    /// Where and how large a subtitle is shown: as it says, or as `combine` says for one that
    /// is in a group.
    pub fn effective_subtitle_transform<
        F: Fn(&SubtitleClip, SubtitleGroupTransform) -> (Scalar, Scalar, Scalar),
    >(&self, clip: &SubtitleClip, combine: F) -> (t: (Scalar, Scalar, Scalar))
        requires
            forall|c: &SubtitleClip, g: SubtitleGroupTransform| #[trigger]
                call_requires(combine, (c, g)),
        ensures
            match clip@.group_id {
                Some(g) => match self@.timeline.group_transform(g) {
                    Some(u) => call_ensures(combine, (clip, u), t),
                    None => t == (clip@.pos_x, clip@.pos_y, clip@.font_size),
                },
                None => t == (clip@.pos_x, clip@.pos_y, clip@.font_size),
            },
    {
        if let Some(g) = clip.group_id {
            if let Some(u) = self.timeline.transform_of(g) {
                return combine(clip, u);
            }
        }
        (clip.pos_x, clip.pos_y, clip.font_size)
    }

    fn edit_selected_subtitle(&mut self, e: SubtitleEdit)
        ensures
            final(self)@ == old(self)@.subtitle_edited(e@),
    {
        if let Some(id) = self.selection.selected_subtitle_id {
            self.save_for_undo();
            self.timeline.edit_subtitle(id, &e);
        }
    }

    /// Moves the selected subtitle from side to side.
    pub fn set_selected_subtitle_pos_x(&mut self, val: Scalar)
        ensures
            final(self)@ == old(self)@.subtitle_edited(SubtitleEditView::PosX(val)),
    {
        self.edit_selected_subtitle(SubtitleEdit::PosX(val));
    }

    /// Moves the selected subtitle up and down.
    pub fn set_selected_subtitle_pos_y(&mut self, val: Scalar)
        ensures
            final(self)@ == old(self)@.subtitle_edited(SubtitleEditView::PosY(val)),
    {
        self.edit_selected_subtitle(SubtitleEdit::PosY(val));
    }

    /// Changes the size of the letters of the selected subtitle.
    pub fn set_selected_subtitle_font_size(&mut self, val: Scalar)
        ensures
            final(self)@ == old(self)@.subtitle_edited(SubtitleEditView::FontSize(val)),
    {
        self.edit_selected_subtitle(SubtitleEdit::FontSize(val));
    }

    /// Changes the colour of the selected subtitle.
    pub fn set_selected_subtitle_color_rgba(&mut self, color: (u8, u8, u8, u8))
        ensures
            final(self)@ == old(self)@.subtitle_edited(SubtitleEditView::Color(color)),
    {
        self.edit_selected_subtitle(SubtitleEdit::Color(color));
    }

    /// The file and the family of the letters of the selected subtitle, if it has a file.
    pub fn get_selected_subtitle_font(&self) -> (font: Option<(String, String)>)
        ensures
            match self@.selected_subtitle() {
                Some(c) => match c.font_path {
                    Some(path) => font matches Some((p, f)) && p@ == path && f@
                        == crate::media_pool::name_or(c.font_family, ""@),
                    None => font is None,
                },
                None => font is None,
            },
    {
        match self.selected_subtitle_clip() {
            Some(c) => match &c.font_path {
                Some(path) => {
                    let family = match &c.font_family {
                        Some(f) => owned(f.as_str()),
                        None => owned(""),
                    };
                    Some((owned(path.as_str()), family))
                },
                None => None,
            },
            None => None,
        }
    }

    /// Changes the letters of the selected subtitle.
    pub fn set_selected_subtitle_font(&mut self, path: Option<String>, family: Option<String>)
        ensures
            final(self)@ == old(self)@.subtitle_edited(
                SubtitleEditView::Font { path: optional(path), family: optional(family) },
            ),
    {
        self.edit_selected_subtitle(SubtitleEdit::Font { path, family });
    }
}

/// A change shows: the subtitle with the id is the changed one, unless it is not there.
pub proof fn edited_subtitle_is_seen(t: TimelineView, id: u64, e: SubtitleEditView)
    ensures
        t.with_subtitle_edit(id, e).subtitle(id) == match t.subtitle(id) {
            Some(c) => Some(c.edited(e)),
            None => None,
        },
{
    reveal(TimelineView::with_subtitle_edit);
    let at = subtitle_track_of(t.subtitle_tracks, id, 0);
    let after = t.with_subtitle_edit(id, e);
    if at < t.subtitle_tracks.len() {
        lemma_track_of(t.subtitle_tracks, id, 0);
        let clips = t.subtitle_tracks[at].clips;
        let k = subtitle_place(clips, id);
        let p = |c: SubtitleClipView| c.id == id;
        crate::lists::lemma_first(clips, p);
        let changed = clips.update(k, clips[k].edited(e));
        assert forall|j: int| 0 <= j < k implies !p(#[trigger] changed[j]) by {
            assert(changed[j] == clips[j]);
        }
        assert(p(changed[k]));
        crate::lists::lemma_first_is(changed, p, k);
        lemma_track_stays(t.subtitle_tracks, after.subtitle_tracks, id, at, 0);
    }
}

proof fn lemma_track_of(tracks: Seq<SubtitleTrackView>, id: u64, i: int)
    requires
        0 <= i,
    ensures
        subtitle_track_of(tracks, id, i) < tracks.len() ==> i <= subtitle_track_of(tracks, id, i)
            && subtitle_place(tracks[subtitle_track_of(tracks, id, i)].clips, id)
            < tracks[subtitle_track_of(tracks, id, i)].clips.len(),
    decreases tracks.len() - i,
{
    if i < tracks.len() && subtitle_place(tracks[i].clips, id) >= tracks[i].clips.len() {
        lemma_track_of(tracks, id, i + 1);
    }
}

proof fn lemma_track_stays(
    a: Seq<SubtitleTrackView>,
    b: Seq<SubtitleTrackView>,
    id: u64,
    at: int,
    i: int,
)
    requires
        0 <= i <= at < a.len(),
        a.len() == b.len(),
        at == subtitle_track_of(a, id, i),
        forall|k: int| 0 <= k < a.len() && k != at ==> a[k] == #[trigger] b[k],
        subtitle_place(b[at].clips, id) < b[at].clips.len(),
    ensures
        subtitle_track_of(b, id, i) == at,
    decreases at - i,
{
    if i < at {
        assert(a[i] == b[i]);
        lemma_track_stays(a, b, id, at, i + 1);
    }
}

// ---------------------------------------------------------------------------
// Groups
// ---------------------------------------------------------------------------

/// A group that is where its subtitles are.
pub open spec fn plain_group() -> SubtitleGroupTransform {
    SubtitleGroupTransform {
        offset_x: Scalar { bits: ZERO },
        offset_y: Scalar { bits: ZERO },
        scale: Scalar { bits: ONE },
    }
}

/// Whether a subtitle is among those with the ids.
pub open spec fn among(ids: Seq<u64>) -> spec_fn(SubtitleClipView) -> bool {
    |c: SubtitleClipView| ids.contains(c.id)
}

impl TimelineView {
    /// The timeline with the subtitles as a new group.
    #[verifier::opaque]
    pub open spec fn with_new_group(self, ids: Seq<u64>) -> TimelineView {
        let g = self.next_subtitle_group_id;
        TimelineView {
            next_subtitle_group_id: next_number(g),
            subtitle_groups: self.subtitle_groups.insert(g, plain_group()),
            ..self
        }.with_subtitle_edits(among(ids), SubtitleEditView::Group(g))
    }

    /// The ids of a group's subtitles on a track.
    pub open spec fn group_on(self, g: u64, clips: Seq<SubtitleClipView>) -> Seq<u64>
        decreases clips.len(),
    {
        if clips.len() == 0 {
            seq![]
        } else {
            let front = self.group_on(g, clips.drop_last());
            if clips.last().group_id == Some(g) {
                front.push(clips.last().id)
            } else {
                front
            }
        }
    }

    /// The ids of a group's subtitles on the first `n` tracks.
    pub open spec fn group_ids(self, g: u64, n: int) -> Seq<u64>
        decreases n,
    {
        if n <= 0 {
            seq![]
        } else {
            self.group_ids(g, n - 1) + self.group_on(g, self.subtitle_tracks[n - 1].clips)
        }
    }
}

impl SelectionView {
    /// Nothing but subtitles.
    pub open spec fn only_subtitles(self, ids: Seq<u64>) -> SelectionView {
        SelectionView {
            selected_clip_id: None,
            selected_clip_ids: seq![],
            selected_subtitle_id: last_id(ids),
            selected_subtitle_ids: ids,
        }
    }
}

impl Timeline {
    fn make_group(&mut self, ids: &Vec<u64>) -> (g: u64)
        ensures
            final(self)@ == old(self)@.with_new_group(ids@),
            g == old(self)@.next_subtitle_group_id,
    {
        reveal(TimelineView::with_new_group);
        let g = take_id(&mut self.next_subtitle_group_id);
        let plain = SubtitleGroupTransform {
            offset_x: Scalar { bits: ZERO },
            offset_y: Scalar { bits: ZERO },
            scale: Scalar { bits: ONE },
        };
        self.set_transform(g, plain);
        let test = |c: &SubtitleClip| -> (yes: bool)
            ensures
                yes == among(ids@)(c@),
        {
            holds(ids, c.id)
        };
        let e = SubtitleEdit::Group(g);
        self.edit_subtitles(test, Ghost(among(ids@)), &e);
        g
    }

    fn find_group_ids(&self, g: u64) -> (ids: Vec<u64>)
        ensures
            ids@ == self@.group_ids(g, self@.subtitle_tracks.len() as int),
    {
        let mut ids: Vec<u64> = Vec::new();
        let mut i: usize = 0;
        while i < self.subtitle_tracks.len()
            invariant
                i <= self.subtitle_tracks.len(),
                ids@ == self@.group_ids(g, i as int),
            decreases self.subtitle_tracks.len() - i,
        {
            let ghost before = ids@;
            let clips = &self.subtitle_tracks[i].clips;
            let ghost all = views(clips@);
            let mut k: usize = 0;
            assert(all.take(0) =~= seq![]);
            assert(ids@ =~= before + self@.group_on(g, all.take(0)));
            while k < clips.len()
                invariant
                    k <= clips.len(),
                    all == views(clips@),
                    ids@ == before + self@.group_on(g, all.take(k as int)),
                decreases clips.len() - k,
            {
                assert(all.take(k + 1).drop_last() =~= all.take(k as int));
                assert(all.take(k + 1).last() == clips@[k as int]@);
                if clips[k].group_id == Some(g) {
                    ids.push(clips[k].id);
                }
                k += 1;
                assert(ids@ =~= before + self@.group_on(g, all.take(k as int)));
            }
            assert(all.take(k as int) =~= all);
            i += 1;
        }
        ids
    }
}

impl StateView {
    /// The state with the selected subtitles as a new group.
    pub open spec fn subtitles_grouped(self) -> StateView {
        let s = self.saved(false);
        let ids = s.selection.selected_subtitle_ids;
        StateView {
            timeline: s.timeline.with_new_group(ids),
            selection: s.selection.only_subtitles(ids),
            ..s
        }
    }
}

impl Selection {
    fn keep_subtitles(&mut self)
        ensures
            final(self)@ == old(self)@.only_subtitles(old(self)@.selected_subtitle_ids),
    {
        self.selected_subtitle_id = last_of(&self.selected_subtitle_ids);
        self.selected_clip_id = None;
        self.selected_clip_ids = Vec::new();
    }
}

impl GlobalState {
    /// Makes a group of the selected subtitles, if there are at least two; gives its id.
    pub fn group_selected_subtitles(&mut self) -> (g: Option<u64>)
        ensures
            old(self)@.selection.selected_subtitle_ids.len() < 2 ==> g is None && final(self)@
                == old(self)@,
            old(self)@.selection.selected_subtitle_ids.len() >= 2 ==> g == Some(
                old(self)@.timeline.next_subtitle_group_id,
            ) && final(self)@ == old(self)@.subtitles_grouped(),
    {
        if self.selection.selected_subtitle_ids.len() < 2 {
            return None;
        }
        self.save_for_undo();
        let g = self.timeline.make_group(&self.selection.selected_subtitle_ids);
        self.selection.keep_subtitles();
        Some(g)
    }

    /// Selects the subtitles of a group, if it has any.
    pub fn select_subtitle_group(&mut self, group_id: u64)
        ensures
            ({
                let t = old(self)@.timeline;
                let ids = t.group_ids(group_id, t.subtitle_tracks.len() as int);
                final(self)@ == if ids.len() == 0 {
                    old(self)@
                } else {
                    StateView {
                        selection: old(self)@.selection.only_subtitles(ids),
                        ..old(self)@
                    }
                }
            }),
    {
        let ids = self.timeline.find_group_ids(group_id);
        if ids.len() == 0 {
            return;
        }
        self.selection.selected_subtitle_ids = ids;
        self.selection.keep_subtitles();
    }
}

/// A new group holds all subtitles that were to be in it.
pub proof fn grouped_subtitles_share_group(t: TimelineView, ids: Seq<u64>, i: int, k: int)
    requires
        0 <= i < t.subtitle_tracks.len(),
        0 <= k < t.subtitle_tracks[i].clips.len(),
        ids.contains(t.subtitle_tracks[i].clips[k].id),
    ensures
        t.with_new_group(ids).subtitle_tracks[i].clips[k].group_id == Some(
            t.next_subtitle_group_id,
        ),
        t.with_new_group(ids).group_transform(t.next_subtitle_group_id) == Some(plain_group()),
{
    reveal(TimelineView::with_new_group);
    reveal(TimelineView::with_subtitle_edits);
    assert(among(ids)(t.subtitle_tracks[i].clips[k]));
}

// ---------------------------------------------------------------------------
// Volume
// ---------------------------------------------------------------------------

/// The first audio track, from `i` on, that has the clip; the length where none has.
pub open spec fn audio_track_of(tracks: Seq<AudioTrackView>, id: u64, i: int) -> int
    decreases tracks.len() - i,
{
    if i >= tracks.len() {
        tracks.len() as int
    } else if place_of(tracks[i].clips, id) < tracks[i].clips.len() {
        i
    } else {
        audio_track_of(tracks, id, i + 1)
    }
}

impl TimelineView {
    /// The sound with the id.
    pub open spec fn sound(self, id: u64) -> Option<ClipView> {
        let t = audio_track_of(self.audio_tracks, id, 0);
        if t < self.audio_tracks.len() {
            let clips = self.audio_tracks[t].clips;
            Some(clips[place_of(clips, id)])
        } else {
            None
        }
    }

    /// The timeline with another volume of a sound that is there.
    #[verifier::opaque]
    pub open spec fn with_sound_gain(self, id: u64, db: Scalar) -> TimelineView {
        let t = audio_track_of(self.audio_tracks, id, 0);
        let track = self.audio_tracks[t];
        let k = place_of(track.clips, id);
        TimelineView {
            audio_tracks: self.audio_tracks.update(
                t,
                AudioTrackView {
                    clips: track.clips.update(k, ClipView { audio_gain_db: db, ..track.clips[k] }),
                    ..track
                },
            ),
            ..self
        }
    }

    /// The timeline with another volume of an audio track that is there.
    #[verifier::opaque]
    pub open spec fn with_track_gain(self, i: int, db: Scalar) -> TimelineView {
        TimelineView {
            audio_tracks: self.audio_tracks.update(
                i,
                AudioTrackView { gain_db: db, ..self.audio_tracks[i] },
            ),
            ..self
        }
    }
}

impl Timeline {
    fn find_audio_track(&self, id: u64) -> (t: usize)
        ensures
            t == audio_track_of(self@.audio_tracks, id, 0),
            t <= self.audio_tracks.len(),
            t < self.audio_tracks.len() ==> place_of(self@.audio_tracks[t as int].clips, id)
                < self@.audio_tracks[t as int].clips.len(),
    {
        let mut i: usize = 0;
        while i < self.audio_tracks.len()
            invariant
                i <= self.audio_tracks.len(),
                audio_track_of(self@.audio_tracks, id, 0) == audio_track_of(
                    self@.audio_tracks,
                    id,
                    i as int,
                ),
            decreases self.audio_tracks.len() - i,
        {
            let clips = &self.audio_tracks[i].clips;
            if find_clip(clips, id) < clips.len() {
                return i;
            }
            i += 1;
        }
        i
    }

    fn the_sound(&self, id: u64) -> (c: Option<&Clip>)
        ensures
            match (c, self@.sound(id)) {
                (Some(a), Some(b)) => a@ == b,
                (None, None) => true,
                _ => false,
            },
    {
        let t = self.find_audio_track(id);
        if t < self.audio_tracks.len() {
            let at = find_clip(&self.audio_tracks[t].clips, id);
            Some(&self.audio_tracks[t].clips[at])
        } else {
            None
        }
    }

    fn set_sound_gain(&mut self, id: u64, db: Scalar)
        requires
            old(self)@.sound(id) is Some,
        ensures
            final(self)@ == old(self)@.with_sound_gain(id, db),
    {
        reveal(TimelineView::with_sound_gain);
        let t = self.find_audio_track(id);
        let ghost before = self.audio_tracks@;
        let ghost clips = self.audio_tracks@[t as int].clips@;
        let k = find_clip(&self.audio_tracks[t].clips, id);
        self.audio_tracks[t].clips[k].audio_gain_db = db;
        let ghost after = self.audio_tracks@[t as int];
        assert(after.clips@ =~= clips.update(k as int, after.clips@[k as int]));
        assert(self.audio_tracks@ =~= before.update(t as int, after));
    }

    fn set_track_gain(&mut self, i: usize, db: Scalar)
        requires
            i < old(self)@.audio_tracks.len(),
        ensures
            final(self)@ == old(self)@.with_track_gain(i as int, db),
    {
        reveal(TimelineView::with_track_gain);
        let ghost before = self.audio_tracks@;
        self.audio_tracks[i].gain_db = db;
        assert(self.audio_tracks@ =~= before.update(i as int, self.audio_tracks@[i as int]));
    }
}

impl GlobalState {
    /// The volume of an audio track in dB; that of one that is not there is 0.
    pub fn get_audio_track_gain_db(&self, track_index: usize) -> (db: Scalar)
        ensures
            db == if track_index < self@.timeline.audio_tracks.len() {
                self@.timeline.audio_tracks[track_index as int].gain_db
            } else {
                Scalar { bits: ZERO }
            },
    {
        if track_index < self.timeline.audio_tracks.len() {
            self.timeline.audio_tracks[track_index].gain_db
        } else {
            Scalar { bits: ZERO }
        }
    }

    /// The volume of the selected sound in dB.
    pub fn get_selected_audio_clip_gain_db(&self) -> (db: Option<Scalar>)
        ensures
            db == match self@.selection.selected_clip_id {
                Some(id) => match self@.timeline.sound(id) {
                    Some(c) => Some(c.audio_gain_db),
                    None => None,
                },
                None => None,
            },
    {
        match self.selection.selected_clip_id {
            Some(id) => match self.timeline.the_sound(id) {
                Some(c) => Some(c.audio_gain_db),
                None => None,
            },
            None => None,
        }
    }

    /// Changes the volume of the selected sound, unless it is `unchanged`. Says whether it
    /// did.
    pub fn set_selected_audio_clip_gain_db(&mut self, gain_db: Scalar, unchanged: bool) -> (done:
        bool)
        ensures
            done == (!unchanged && match old(self)@.selection.selected_clip_id {
                Some(id) => old(self)@.timeline.sound(id) is Some,
                None => false,
            }),
            final(self)@ == if done {
                let s = old(self)@.saved(false);
                StateView {
                    timeline: s.timeline.with_sound_gain(
                        old(self)@.selection.selected_clip_id->0,
                        gain(gain_db),
                    ),
                    ..s
                }
            } else {
                old(self)@
            },
    {
        let id = match self.selection.selected_clip_id {
            Some(id) => id,
            None => {
                return false;
            },
        };
        if unchanged || self.timeline.the_sound(id).is_none() {
            return false;
        }
        self.save_for_undo();
        let db = gain_db.clamp(Scalar { bits: SOFTEST }, Scalar { bits: LOUDEST });
        self.timeline.set_sound_gain(id, db);
        true
    }

    /// Changes the volume of an audio track, unless it is `unchanged`. Says whether it did.
    pub fn set_audio_track_gain_db(
        &mut self,
        track_index: usize,
        gain_db: Scalar,
        unchanged: bool,
    ) -> (done: bool)
        ensures
            done == (!unchanged && track_index < old(self)@.timeline.audio_tracks.len()),
            final(self)@ == if done {
                let s = old(self)@.saved(false);
                StateView {
                    timeline: s.timeline.with_track_gain(track_index as int, gain(gain_db)),
                    ..s
                }
            } else {
                old(self)@
            },
    {
        if unchanged || track_index >= self.timeline.audio_tracks.len() {
            return false;
        }
        self.save_for_undo();
        let db = gain_db.clamp(Scalar { bits: SOFTEST }, Scalar { bits: LOUDEST });
        self.timeline.set_track_gain(track_index, db);
        true
    }
}

} // verus!
