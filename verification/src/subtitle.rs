//! Subtitles.
use crate::copying::{copy_all, copy_text, optional, views, Duplicate};
use crate::order::Timed;
use crate::scalar::Scalar;
use crate::time::{Duration, MAX_NANOS};
use vstd::prelude::*;

verus! {

broadcast use crate::copying::group_views;

/// Where and how large a group of subtitles is shown.
#[derive(Clone, Copy, Debug, PartialEq, Eq, Structural)]
pub struct SubtitleGroupTransform {
    pub offset_x: Scalar,
    pub offset_y: Scalar,
    pub scale: Scalar,
}

impl Default for SubtitleGroupTransform {
    fn default() -> (transform: Self)
        ensures
            transform.offset_x.bits == 0,
            transform.offset_y.bits == 0,
            transform.scale.bits == 0,
    {
        SubtitleGroupTransform {
            offset_x: Scalar { bits: 0 },
            offset_y: Scalar { bits: 0 },
            scale: Scalar { bits: 0 },
        }
    }
}

/// A line of text shown for some time.
#[derive(Debug)]
pub struct SubtitleClip {
    pub id: u64,
    pub text: String,
    pub start: Duration,
    pub duration: Duration,
    pub pos_x: Scalar,
    pub pos_y: Scalar,
    pub font_size: Scalar,
    pub color_rgba: (u8, u8, u8, u8),
    pub font_family: Option<String>,
    pub font_path: Option<String>,
    pub group_id: Option<u64>,
}

/// What a subtitle holds.
pub ghost struct SubtitleClipView {
    pub id: u64,
    pub text: Seq<char>,
    pub start: int,
    pub duration: int,
    pub pos_x: Scalar,
    pub pos_y: Scalar,
    pub font_size: Scalar,
    pub color_rgba: (u8, u8, u8, u8),
    pub font_family: Option<Seq<char>>,
    pub font_path: Option<Seq<char>>,
    pub group_id: Option<u64>,
}

impl View for SubtitleClip {
    type V = SubtitleClipView;

    open spec fn view(&self) -> SubtitleClipView {
        SubtitleClipView {
            id: self.id,
            text: self.text@,
            start: self.start@,
            duration: self.duration@,
            pos_x: self.pos_x,
            pos_y: self.pos_y,
            font_size: self.font_size,
            color_rgba: self.color_rgba,
            font_family: optional(self.font_family),
            font_path: optional(self.font_path),
            group_id: self.group_id,
        }
    }
}

impl Clone for SubtitleClip {
    fn clone(&self) -> (copy: Self)
        ensures
            copy@ == self@,
    {
        SubtitleClip {
            id: self.id,
            text: self.text.clone(),
            start: self.start,
            duration: self.duration,
            pos_x: self.pos_x,
            pos_y: self.pos_y,
            font_size: self.font_size,
            color_rgba: self.color_rgba,
            font_family: copy_text(&self.font_family),
            font_path: copy_text(&self.font_path),
            group_id: self.group_id,
        }
    }
}

impl Duplicate for SubtitleClip {
    fn duplicate(&self) -> (copy: Self) {
        self.clone()
    }
}

/// A row of subtitles.
#[derive(Debug)]
pub struct SubtitleTrack {
    pub name: String,
    pub clips: Vec<SubtitleClip>,
}

/// What a row of subtitles holds.
pub ghost struct SubtitleTrackView {
    pub name: Seq<char>,
    pub clips: Seq<SubtitleClipView>,
}

impl View for SubtitleTrack {
    type V = SubtitleTrackView;

    open spec fn view(&self) -> SubtitleTrackView {
        SubtitleTrackView {
            name: self.name@,
            clips: views(self.clips@),
        }
    }
}

impl Clone for SubtitleTrack {
    fn clone(&self) -> (copy: Self)
        ensures
            copy@ == self@,
    {
        SubtitleTrack {
            name: self.name.clone(),
            clips: copy_all(&self.clips),
        }
    }
}

impl Duplicate for SubtitleTrack {
    fn duplicate(&self) -> (copy: Self) {
        self.clone()
    }
}

impl SubtitleClipView {
    /// The time at which the subtitle ends.
    pub open spec fn end(self) -> int {
        self.start + self.duration
    }
}

impl Timed for SubtitleClip {
    open spec fn at(&self) -> int {
        self.start@
    }

    fn time(&self) -> (t: Duration) {
        self.start
    }
}

impl SubtitleClip {
    /// The time at which the subtitle ends.
    pub fn end(&self) -> (t: Duration)
        requires
            self@.end() <= MAX_NANOS,
        ensures
            t@ == self@.end(),
    {
        self.start.plus(self.duration)
    }
}

impl SubtitleTrack {
    /// A row without subtitles.
    pub fn new(name: String) -> (track: Self)
        ensures
            track@ == (SubtitleTrackView { name: name@, clips: Seq::empty() }),
    {
        let track = SubtitleTrack { name, clips: Vec::new() };
        assert(track@.clips =~= Seq::empty());
        track
    }
}

/// Subtitles in order of their starts; those that start together keep their order.
pub open spec fn subtitles_by_start(clips: Seq<SubtitleClipView>) -> Seq<SubtitleClipView> {
    crate::order::ordered(clips, |c: SubtitleClipView| c.start)
}

/// Puts the subtitles in order of their starts.
pub fn sort_subtitles(clips: &mut Vec<SubtitleClip>)
    ensures
        views(final(clips)@) == subtitles_by_start(views(old(clips)@)),
{
    let ghost before = clips@;
    crate::order::sort_by_time(clips);
    proof {
        crate::order::lemma_ordered_views(
            before,
            |c: SubtitleClip| c.at(),
            |c: SubtitleClipView| c.start,
        );
    }
}

} // verus!
