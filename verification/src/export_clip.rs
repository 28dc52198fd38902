//! The filters by which one clip comes onto the canvas.
use crate::clip::{Clip, ClipView};
use crate::clip_effects::EffectKind;
use crate::copying::{optional, views};
use crate::export_effects::{
    blur_filter, build_blur_filter, build_eq_filter, build_local_mask_filters,
    build_opacity_filter, build_tint_filter, color_filter, mask_filters,
    opacity_filter, tint_filter, ClipWords, ClipWordsView, LayerAdjustWords, LayerAdjustWordsView,
    OpacityMode, TEN_THOUSANDTH,
};
use crate::export_layers::{
    build_layer_gate_expr_for_clip, build_layer_opacity_factor_expr_for_clip,
    build_motionloom_blur_filter_for_clip, build_motionloom_hsla_filter_for_clip,
    build_motionloom_lut_filter_for_clip, build_motionloom_sharpen_filter_for_clip, layer_gate,
    layer_opacity, script_blur, script_lut, script_overlay, script_sharpening, scripts_told,
    ExportLayer, ExportLayerView,
};
use crate::export_settings::push_text;
use crate::filter_words::{
    build_keyframe_expr, fixed, fixed_text, full, full_text, keyframe_expr, number_text, sum,
    sum_text, worded,
};
use crate::layer::LayerColorBlurEffects;
use crate::modes::ExportColorMode;
use crate::scalar::magnitude;
use crate::text::{decimal, decimal_text, owned};
use crate::time::{least, MAX_NANOS};
use vstd::prelude::*;

verus! {

broadcast use crate::copying::group_views;

/// A clip with its numbers in words.
#[derive(Debug)]
pub struct ExportClip {
    pub clip: Clip,
    pub words: ClipWords,
}

/// A clip with its numbers in words.
pub ghost struct ExportClipView {
    pub clip: ClipView,
    pub words: ClipWordsView,
}

impl View for ExportClip {
    type V = ExportClipView;

    open spec fn view(&self) -> ExportClipView {
        ExportClipView { clip: self.clip@, words: self.words@ }
    }
}

/// What all clips of an export are drawn with.
#[derive(Debug)]
pub struct ExportLook {
    /// The size of the canvas in points.
    pub width: u32,
    pub height: u32,
    /// The same in words, before it is rounded.
    pub width_words: String,
    pub height_words: String,
    pub fps: u32,
    pub effects: LayerColorBlurEffects,
    pub adjust: LayerAdjustWords,
    pub layers: Vec<ExportLayer>,
    pub color_mode: ExportColorMode,
    /// Whether masks are left out.
    pub without_masks: bool,
}

/// What all clips of an export are drawn with.
pub ghost struct LookView {
    pub width: int,
    pub height: int,
    pub width_words: Seq<char>,
    pub height_words: Seq<char>,
    pub fps: int,
    pub effects: LayerColorBlurEffects,
    pub adjust: LayerAdjustWordsView,
    pub layers: Seq<ExportLayerView>,
    pub color_mode: ExportColorMode,
    pub without_masks: bool,
}

impl View for ExportLook {
    type V = LookView;

    open spec fn view(&self) -> LookView {
        LookView {
            width: self.width as int,
            height: self.height as int,
            width_words: self.width_words@,
            height_words: self.height_words@,
            fps: self.fps as int,
            effects: self.effects,
            adjust: self.adjust@,
            layers: views(self.layers@),
            color_mode: self.color_mode,
            without_masks: self.without_masks,
        }
    }
}

/// Two times added; what is past the longest counts as the longest.
pub open spec fn time_sum(a: int, b: int) -> int {
    least(a + b, MAX_NANOS as int)
}

/// The product of three.
pub open spec fn three_product(a: Seq<char>, b: Seq<char>, c: Seq<char>) -> Seq<char> {
    "("@
        + a
        + ")*("@
        + b
        + ")*("@
        + c
        + ")"@
}

pub fn three_product_text(a: &str, b: &str, c: &str) -> (text: String)
    ensures
        text@ == three_product(a@, b@, c@),
{
    let mut text = owned("(");
    text.append(a);
    text.append(")*(");
    text.append(b);
    text.append(")*(");
    text.append(c);
    text.append(")");
    text
}

/// A side of the canvas, scaled.
pub open spec fn canvas_side(side: Seq<char>, scale: Seq<char>) -> Seq<char> {
    "("@
        + side
        + ")*("@
        + scale
        + ")"@
}

pub fn canvas_side_text(side: &str, scale: &str) -> (text: String)
    ensures
        text@ == canvas_side(side@, scale@),
{
    let mut text = owned("(");
    text.append(side);
    text.append(")*(");
    text.append(scale);
    text.append(")");
    text
}

/// A rotation.
pub open spec fn rotate_by(x: Seq<char>) -> Seq<char> {
    ",rotate='("@
        + x
        + ")*PI/180':ow='rotw(iw)':oh='roth(ih)':c=black@0"@
}

pub fn rotate_by_text(x: &str) -> (text: String)
    ensures
        text@ == rotate_by(x@),
{
    let mut text = owned(",rotate='(");
    text.append(x);
    text.append(")*PI/180':ow='rotw(iw)':oh='roth(ih)':c=black@0");
    text
}

/// The name of a picture in the making of a clip.
pub open spec fn clip_tag(prefix: Seq<char>, what: Seq<char>, i: Seq<char>) -> Seq<char> {
    "["@
        + prefix
        + "_"@
        + what
        + "_"@
        + i
        + "]"@
}

pub fn clip_tag_text(prefix: &str, what: &str, i: &str) -> (text: String)
    ensures
        text@ == clip_tag(prefix@, what@, i@),
{
    let mut text = owned("[");
    text.append(prefix);
    text.append("_");
    text.append(what);
    text.append("_");
    text.append(i);
    text.append("]");
    text
}

/// An empty canvas.
pub open spec fn empty_canvas(w: Seq<char>, h: Seq<char>, fps: Seq<char>, length: Seq<char>, tag: Seq<char>) -> Seq<char> {
    "color=c=black@0:s="@
        + w
        + "x"@
        + h
        + ":r="@
        + fps
        + ":d="@
        + length
        + ",format=bgra"@
        + tag
}

pub fn empty_canvas_text(w: &str, h: &str, fps: &str, length: &str, tag: &str) -> (text: String)
    ensures
        text@ == empty_canvas(w@, h@, fps@, length@, tag@),
{
    let mut text = owned("color=c=black@0:s=");
    text.append(w);
    text.append("x");
    text.append(h);
    text.append(":r=");
    text.append(fps);
    text.append(":d=");
    text.append(length);
    text.append(",format=bgra");
    text.append(tag);
    text
}

/// A clip's picture with its effects.
pub open spec fn content(input: Seq<char>, fps: Seq<char>, start: Seq<char>, end: Seq<char>, eq: Seq<char>, w: Seq<char>, h: Seq<char>, tail: Seq<char>) -> Seq<char> {
    "["@
        + input
        + ":v:0]fps="@
        + fps
        + ",setsar=1,trim=start="@
        + start
        + ":end="@
        + end
        + ",setpts=PTS-STARTPTS,format=bgra"@
        + eq
        + ",scale=w='"@
        + w
        + "':h='"@
        + h
        + "':force_original_aspect_ratio=decrease:eval=frame"@
        + tail
}

pub fn content_text(input: &str, fps: &str, start: &str, end: &str, eq: &str, w: &str, h: &str, tail: &str) -> (text: String)
    ensures
        text@ == content(input@, fps@, start@, end@, eq@, w@, h@, tail@),
{
    let mut text = owned("[");
    text.append(input);
    text.append(":v:0]fps=");
    text.append(fps);
    text.append(",setsar=1,trim=start=");
    text.append(start);
    text.append(":end=");
    text.append(end);
    text.append(",setpts=PTS-STARTPTS,format=bgra");
    text.append(eq);
    text.append(",scale=w='");
    text.append(w);
    text.append("':h='");
    text.append(h);
    text.append("':force_original_aspect_ratio=decrease:eval=frame");
    text.append(tail);
    text
}

/// Nine filters behind each other.
pub open spec fn in_a_row(a: Seq<char>, b: Seq<char>, c: Seq<char>, d: Seq<char>, e: Seq<char>, f: Seq<char>, g: Seq<char>, h: Seq<char>, i: Seq<char>) -> Seq<char> {
    a
        + b
        + c
        + d
        + e
        + f
        + g
        + h
        + i
}

pub fn in_a_row_text(a: &str, b: &str, c: &str, d: &str, e: &str, f: &str, g: &str, h: &str, i: &str) -> (text: String)
    ensures
        text@ == in_a_row(a@, b@, c@, d@, e@, f@, g@, h@, i@),
{
    let mut text = owned(a);
    text.append(b);
    text.append(c);
    text.append(d);
    text.append(e);
    text.append(f);
    text.append(g);
    text.append(h);
    text.append(i);
    text
}

/// Where a picture goes: in the middle, and moved by a share of a side.
pub open spec fn offset(room: Seq<char>, x: Seq<char>, side: Seq<char>) -> Seq<char> {
    "'"@
        + room
        + "/2 + ("@
        + x
        + ") * "@
        + side
        + "'"@
}

pub fn offset_text(room: &str, x: &str, side: &str) -> (text: String)
    ensures
        text@ == offset(room@, x@, side@),
{
    let mut text = owned("'");
    text.append(room);
    text.append("/2 + (");
    text.append(x);
    text.append(") * ");
    text.append(side);
    text.append("'");
    text
}

/// A picture on its canvas.
pub open spec fn onto_canvas(canvas: Seq<char>, content: Seq<char>, x: Seq<char>, y: Seq<char>, tag: Seq<char>) -> Seq<char> {
    canvas
        + content
        + "overlay=x="@
        + x
        + ":y="@
        + y
        + ":shortest=1:format=auto"@
        + tag
}

pub fn onto_canvas_text(canvas: &str, content: &str, x: &str, y: &str, tag: &str) -> (text: String)
    ensures
        text@ == onto_canvas(canvas@, content@, x@, y@, tag@),
{
    let mut text = owned(canvas);
    text.append(content);
    text.append("overlay=x=");
    text.append(x);
    text.append(":y=");
    text.append(y);
    text.append(":shortest=1:format=auto");
    text.append(tag);
    text
}

impl ClipWordsView {
    /// The size of the clip's picture at the time `t`.
    pub open spec fn scale_expr(self, c: ClipView) -> Seq<char> {
        three_product(
            keyframe_expr(worded(c.keyframes.scale, self.scale_keys), self.scale, "t"@),
            self.zoom,
            self.shock_zoom,
        )
    }

    /// Where the clip's picture is, from side to side.
    pub open spec fn x_expr(self, c: ClipView) -> Seq<char> {
        sum(
            keyframe_expr(worded(c.keyframes.pos_x, self.pos_x_keys), self.pos_x, "t"@),
            self.slide_x,
        )
    }

    /// Where the clip's picture is, up and down.
    pub open spec fn y_expr(self, c: ClipView) -> Seq<char> {
        sum(
            keyframe_expr(worded(c.keyframes.pos_y, self.pos_y_keys), self.pos_y, "t"@),
            self.slide_y,
        )
    }
}

impl ClipWords {
    fn scale_expr(&self, c: &Clip) -> (text: String)
        requires
            self@.tells(c@),
        ensures
            text@ == self@.scale_expr(c@),
    {
        let own = build_keyframe_expr(
            &c.scale_keyframes,
            &self.scale_keys,
            self.scale.as_str(),
            "t",
        );
        three_product_text(own.as_str(), self.zoom.as_str(), self.shock_zoom.as_str())
    }

    fn x_expr(&self, c: &Clip) -> (text: String)
        requires
            self@.tells(c@),
        ensures
            text@ == self@.x_expr(c@),
    {
        let own = build_keyframe_expr(
            &c.pos_x_keyframes,
            &self.pos_x_keys,
            self.pos_x.as_str(),
            "t",
        );
        sum_text(own.as_str(), self.slide_x.as_str())
    }

    fn y_expr(&self, c: &Clip) -> (text: String)
        requires
            self@.tells(c@),
        ensures
            text@ == self@.y_expr(c@),
    {
        let own = build_keyframe_expr(
            &c.pos_y_keyframes,
            &self.pos_y_keys,
            self.pos_y.as_str(),
            "t",
        );
        sum_text(own.as_str(), self.slide_y.as_str())
    }
}

/// The rotation of the clip, if it is seen.
pub open spec fn rotation_filter(c: ClipView, w: ClipWordsView) -> Seq<char> {
    let turn = c.effect(EffectKind::Transform)->Transform_rotation_deg;
    if c.keyframes.rotation.len() == 0 && magnitude(turn.bits) <= TEN_THOUSANDTH {
        ""@
    } else {
        rotate_by(keyframe_expr(worded(c.keyframes.rotation, w.rotation_keys), w.rotation, "t"@))
    }
}

fn rotation_text(c: &Clip, w: &ClipWords) -> (text: String)
    requires
        w@.tells(c@),
    ensures
        text@ == rotation_filter(c@, w@),
{
    if c.rotation_keyframes.len() == 0 && c.get_rotation().abs().bits <= TEN_THOUSANDTH {
        owned("")
    } else {
        let x = build_keyframe_expr(
            &c.rotation_keyframes,
            &w.rotation_keys,
            w.rotation.as_str(),
            "t",
        );
        rotate_by_text(x.as_str())
    }
}

impl LookView {
    /// Whether each transition of the layers' scripts has its words.
    pub open spec fn told(self) -> bool {
        scripts_told(self.layers)
    }

    /// When a layer's adjustments are seen over the clip.
    pub open spec fn gate(self, c: ClipView, t: Seq<char>) -> Option<Seq<char>> {
        if self.effects.changes_nothing() {
            None
        } else {
            layer_gate(c, self.layers, t, false)
        }
    }

    /// The filters of the clip's effects, those before the picture is scaled.
    pub open spec fn colors(self, c: ClipView, w: ClipWordsView) -> Seq<char> {
        color_filter(
            c,
            w,
            self.adjust,
            self.gate(c, "t"@),
            self.gate(c, "T"@),
            self.color_mode,
        )
    }

    /// The opacity of the clip with what layers do to it.
    pub open spec fn opacity(
        self,
        c: ClipView,
        w: ClipWordsView,
        mode: OpacityMode,
        include_dissolve: bool,
    ) -> Seq<char> {
        opacity_filter(c, w, mode, include_dissolve, layer_opacity(c, self.layers, "T"@))
    }

    /// The filters of the clip's effects, those after the picture is scaled.
    #[verifier::opaque]
    pub open spec fn tail(
        self,
        c: ClipView,
        w: ClipWordsView,
        mode: OpacityMode,
        include_dissolve: bool,
        tag: Seq<char>,
    ) -> Seq<char> {
        let opacity = self.opacity(c, w, mode, include_dissolve);
        in_a_row(
            rotation_filter(c, w),
            blur_filter(c, w, self.effects, self.adjust, self.gate(c, "t"@)) + script_blur(
                c,
                self.layers,
                "t"@,
            ),
            script_sharpening(c, self.layers, "t"@),
            script_lut(c, self.layers, "T"@),
            tint_filter(c, w),
            script_overlay(c, self.layers, "T"@),
            if opacity.len() == 0 {
                ""@
            } else {
                ",format=bgra"@
            },
            opacity,
            tag,
        )
    }

    /// The clip's picture with its effects.
    #[verifier::opaque]
    pub open spec fn picture(
        self,
        c: ClipView,
        w: ClipWordsView,
        input: int,
        mode: OpacityMode,
        include_dissolve: bool,
        tag: Seq<char>,
    ) -> Seq<char> {
        content(
            decimal(input),
            decimal(self.fps),
            fixed(c.source_in),
            fixed(time_sum(c.source_in, c.duration)),
            self.colors(c, w),
            canvas_side(self.width_words, w.scale_expr(c)),
            canvas_side(self.height_words, w.scale_expr(c)),
            self.tail(c, w, mode, include_dissolve, tag),
        )
    }
}

impl ExportLook {
    fn gate(&self, c: &Clip, t: &str) -> (gate: Option<String>)
        ensures
            optional(gate) == self@.gate(c@, t@),
    {
        if self.effects.is_identity() {
            None
        } else {
            build_layer_gate_expr_for_clip(c, &self.layers, t, false)
        }
    }

    fn tail(
        &self,
        c: &Clip,
        w: &ClipWords,
        mode: OpacityMode,
        include_dissolve: bool,
        tag: &str,
    ) -> (text: String)
        requires
            w@.tells(c@),
            self@.told(),
        ensures
            text@ == self@.tail(c@, w@, mode, include_dissolve, tag@),
    {
        reveal(LookView::tail);
        let gate = self.gate(c, "t");
        let factor = build_layer_opacity_factor_expr_for_clip(c, &self.layers, "T");
        let mut blur = build_blur_filter(c, w, self.effects, &self.adjust, &gate);
        blur.append(build_motionloom_blur_filter_for_clip(c, &self.layers, "t").as_str());
        let sharpen = build_motionloom_sharpen_filter_for_clip(c, &self.layers, "t");
        let lut = build_motionloom_lut_filter_for_clip(c, &self.layers, "T");
        let tint = build_tint_filter(c, w);
        let overlay = build_motionloom_hsla_filter_for_clip(c, &self.layers, "T");
        let opacity = build_opacity_filter(c, w, mode, include_dissolve, &factor);
        let format = if opacity.as_str().unicode_len() == 0 {
            ""
        } else {
            ",format=bgra"
        };
        in_a_row_text(
            rotation_text(c, w).as_str(),
            blur.as_str(),
            sharpen.as_str(),
            lut.as_str(),
            tint.as_str(),
            overlay.as_str(),
            format,
            opacity.as_str(),
            tag,
        )
    }

    fn picture(
        &self,
        c: &Clip,
        w: &ClipWords,
        input: usize,
        mode: OpacityMode,
        include_dissolve: bool,
        tag: &str,
    ) -> (text: String)
        requires
            w@.tells(c@),
            self@.told(),
        ensures
            text@ == self@.picture(c@, w@, input as int, mode, include_dissolve, tag@),
    {
        reveal(LookView::picture);
        let gate = self.gate(c, "t");
        let upper_gate = self.gate(c, "T");
        let eq = build_eq_filter(c, w, &self.adjust, &gate, &upper_gate, self.color_mode);
        let scale = w.scale_expr(c);
        content_text(
            number_text(input).as_str(),
            decimal_text(self.fps as u64).as_str(),
            fixed_text(c.source_in).as_str(),
            fixed_text(c.source_in.saturating_add(c.duration)).as_str(),
            eq.as_str(),
            canvas_side_text(self.width_words.as_str(), scale.as_str()).as_str(),
            canvas_side_text(self.height_words.as_str(), scale.as_str()).as_str(),
            self.tail(c, w, mode, include_dissolve, tag).as_str(),
        )
    }
}

/// How a clip is drawn: which input it is, under which names, and how its opacity counts.
#[derive(Debug, Clone, Copy)]
pub struct Drawing<'a> {
    pub input: usize,
    pub prefix: &'a str,
    pub index: usize,
    pub mode: OpacityMode,
    pub include_dissolve: bool,
}

/// How a clip is drawn.
pub ghost struct DrawingView {
    pub input: int,
    pub prefix: Seq<char>,
    pub index: int,
    pub mode: OpacityMode,
    pub include_dissolve: bool,
}

impl<'a> View for Drawing<'a> {
    type V = DrawingView;

    open spec fn view(&self) -> DrawingView {
        DrawingView {
            input: self.input as int,
            prefix: self.prefix@,
            index: self.index as int,
            mode: self.mode,
            include_dissolve: self.include_dissolve,
        }
    }
}

impl LookView {
    /// The clip's picture with its masks: the filters, and the name of what comes out.
    pub open spec fn masked(
        self,
        e: ExportClipView,
        d: DrawingView,
        parts: Seq<Seq<char>>,
        tag: Seq<char>,
    ) -> (Seq<Seq<char>>, Seq<char>) {
        if self.without_masks {
            (parts, tag)
        } else {
            mask_filters(
                e.clip.shown_layers(),
                e.words.masks,
                e.clip.shown_layers().len() as int,
                d.prefix,
                d.index,
                parts,
                tag,
            )
        }
    }

    /// All filters of a clip, behind the others: an empty canvas, the picture with its
    /// effects and masks, and the picture on the canvas.
    #[verifier::opaque]
    pub open spec fn drawn(self, e: ExportClipView, d: DrawingView, parts: Seq<Seq<char>>) -> Seq<
        Seq<char>,
    > {
        let canvas = clip_tag(d.prefix, "canvas"@, decimal(d.index));
        let base = clip_tag(d.prefix, "content_base"@, decimal(d.index));
        let (front, tag) = self.masked(
            e,
            d,
            parts.push(
                empty_canvas(
                    decimal(self.width),
                    decimal(self.height),
                    decimal(self.fps),
                    full(e.clip.duration),
                    canvas,
                ),
            ).push(self.picture(e.clip, e.words, d.input, d.mode, d.include_dissolve, base)),
            base,
        );
        front.push(
            onto_canvas(
                canvas,
                tag,
                offset("(W-w)"@, e.words.x_expr(e.clip), self.width_words),
                offset("(H-h)"@, e.words.y_expr(e.clip), self.height_words),
                drawn_tag(d),
            ),
        )
    }
}

/// The name of a clip on its canvas.
pub open spec fn drawn_tag(d: DrawingView) -> Seq<char> {
    clip_tag(d.prefix, "clip"@, decimal(d.index))
}

/// Adds all filters of a clip; gives the name of the clip on its canvas.
pub fn build_single_clip_video_filter(
    parts: &mut Vec<String>,
    c: &Clip,
    w: &ClipWords,
    d: Drawing,
    look: &ExportLook,
) -> (tag: String)
    requires
        w@.tells(c@),
        look@.told(),
    ensures
        views(final(parts)@) == look@.drawn(
            ExportClipView { clip: c@, words: w@ },
            d@,
            views(old(parts)@),
        ),
        tag@ == drawn_tag(d@),
{
    reveal(LookView::drawn);
    let index = number_text(d.index);
    let canvas = clip_tag_text(d.prefix, "canvas", index.as_str());
    let base = clip_tag_text(d.prefix, "content_base", index.as_str());
    push_text(
        parts,
        empty_canvas_text(
            decimal_text(look.width as u64).as_str(),
            decimal_text(look.height as u64).as_str(),
            decimal_text(look.fps as u64).as_str(),
            full_text(c.duration).as_str(),
            canvas.as_str(),
        ).as_str(),
    );
    let picture = look.picture(
        c,
        w,
        d.input,
        d.mode,
        d.include_dissolve,
        base.as_str(),
    );
    push_text(parts, picture.as_str());
    let content = if look.without_masks {
        base
    } else {
        build_local_mask_filters(parts, c, w, base.as_str(), d.prefix, d.index)
    };
    let x = offset_text("(W-w)", w.x_expr(c).as_str(), look.width_words.as_str());
    let y = offset_text("(H-h)", w.y_expr(c).as_str(), look.height_words.as_str());
    let tag = clip_tag_text(d.prefix, "clip", index.as_str());
    push_text(
        parts,
        onto_canvas_text(
            canvas.as_str(),
            content.as_str(),
            x.as_str(),
            y.as_str(),
            tag.as_str(),
        ).as_str(),
    );
    tag
}

} // verus!
