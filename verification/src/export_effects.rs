//! The filters that a clip's own effects become.
use crate::clip::{Clip, ClipView};
use crate::clip_effects::{EffectKind, SIXTY_FOUR};
use crate::copying::{optional, views};
use crate::effect::{LocalMaskLayer, MINUS_ONE, ONE, TWO, ZERO};
use crate::export_checks::{is_near_one, is_near_zero, near_one, near_zero, THOUSANDTH};
use crate::export_settings::push_text;
use crate::filter_words::{
    build_keyframe_expr, keyframe_expr, number_text, product, product_text, worded,
};
use crate::layer::LayerColorBlurEffects;
use crate::masks::share;
use crate::modes::ExportColorMode;
use crate::scalar::{magnitude, Scalar};
use crate::text::{decimal, owned};
use vstd::prelude::*;

verus! {

broadcast use crate::copying::group_views;

/// The bit pattern of a ten thousandth.
pub const TEN_THOUSANDTH: u32 = 0x38d1_b717;

/// The bit pattern of the smallest share of a tint that is drawn, five thousandths.
pub const LEAST_TINT: u32 = 0x3ba3_d70a;

/// How an opacity is applied: to the picture's own transparency, or by darkening it.
#[derive(Debug, Clone, Copy, PartialEq, Eq, Structural)]
pub enum OpacityMode {
    AlphaOnly,
    MultiplyRgb,
}

/// The numbers of a mask layer, each within its range, in words.
#[derive(Debug)]
pub struct MaskWords {
    pub brightness: String,
    pub contrast: String,
    pub saturation: String,
    pub blur: String,
    pub opacity: String,
    pub center_x: String,
    pub center_y: String,
    pub edge: String,
    pub feather: String,
    pub strength: String,
}

/// The numbers of a mask layer, each within its range, in words.
pub ghost struct MaskWordsView {
    pub brightness: Seq<char>,
    pub contrast: Seq<char>,
    pub saturation: Seq<char>,
    pub blur: Seq<char>,
    pub opacity: Seq<char>,
    pub center_x: Seq<char>,
    pub center_y: Seq<char>,
    pub edge: Seq<char>,
    pub feather: Seq<char>,
    pub strength: Seq<char>,
}

impl View for MaskWords {
    type V = MaskWordsView;

    open spec fn view(&self) -> MaskWordsView {
        MaskWordsView {
            brightness: self.brightness@,
            contrast: self.contrast@,
            saturation: self.saturation@,
            blur: self.blur@,
            opacity: self.opacity@,
            center_x: self.center_x@,
            center_y: self.center_y@,
            edge: self.edge@,
            feather: self.feather@,
            strength: self.strength@,
        }
    }
}

/// The numbers of a layer's adjustments, each within its range, in words.
#[derive(Debug)]
pub struct LayerAdjustWords {
    pub brightness: String,
    pub contrast_gain: String,
    pub saturation_gain: String,
    pub blur: String,
}

/// The numbers of a layer's adjustments, each within its range, in words.
pub ghost struct LayerAdjustWordsView {
    pub brightness: Seq<char>,
    pub contrast_gain: Seq<char>,
    pub saturation_gain: Seq<char>,
    pub blur: Seq<char>,
}

impl View for LayerAdjustWords {
    type V = LayerAdjustWordsView;

    open spec fn view(&self) -> LayerAdjustWordsView {
        LayerAdjustWordsView {
            brightness: self.brightness@,
            contrast_gain: self.contrast_gain@,
            saturation_gain: self.saturation_gain@,
            blur: self.blur@,
        }
    }
}

/// The numbers of a clip, in words.
#[derive(Debug)]
pub struct ClipWords {
    pub scale: String,
    pub rotation: String,
    pub pos_x: String,
    pub pos_y: String,
    pub brightness: String,
    pub contrast: String,
    pub saturation: String,
    pub opacity: String,
    pub short_opacity: String,
    pub blur: String,
    pub tint: String,
    pub zoom: String,
    pub shock_zoom: String,
    pub slide_x: String,
    pub slide_y: String,
    pub fade: Option<String>,
    pub dissolve: Option<String>,
    pub scale_keys: Vec<String>,
    pub rotation_keys: Vec<String>,
    pub pos_x_keys: Vec<String>,
    pub pos_y_keys: Vec<String>,
    pub brightness_keys: Vec<String>,
    pub contrast_keys: Vec<String>,
    pub saturation_keys: Vec<String>,
    pub opacity_keys: Vec<String>,
    pub masks: Vec<MaskWords>,
}

/// The numbers of a clip, in words.
pub ghost struct ClipWordsView {
    pub scale: Seq<char>,
    pub rotation: Seq<char>,
    pub pos_x: Seq<char>,
    pub pos_y: Seq<char>,
    pub brightness: Seq<char>,
    pub contrast: Seq<char>,
    pub saturation: Seq<char>,
    pub opacity: Seq<char>,
    pub short_opacity: Seq<char>,
    pub blur: Seq<char>,
    pub tint: Seq<char>,
    pub zoom: Seq<char>,
    pub shock_zoom: Seq<char>,
    pub slide_x: Seq<char>,
    pub slide_y: Seq<char>,
    pub fade: Option<Seq<char>>,
    pub dissolve: Option<Seq<char>>,
    pub scale_keys: Seq<Seq<char>>,
    pub rotation_keys: Seq<Seq<char>>,
    pub pos_x_keys: Seq<Seq<char>>,
    pub pos_y_keys: Seq<Seq<char>>,
    pub brightness_keys: Seq<Seq<char>>,
    pub contrast_keys: Seq<Seq<char>>,
    pub saturation_keys: Seq<Seq<char>>,
    pub opacity_keys: Seq<Seq<char>>,
    pub masks: Seq<MaskWordsView>,
}

impl View for ClipWords {
    type V = ClipWordsView;

    open spec fn view(&self) -> ClipWordsView {
        ClipWordsView {
            scale: self.scale@,
            rotation: self.rotation@,
            pos_x: self.pos_x@,
            pos_y: self.pos_y@,
            brightness: self.brightness@,
            contrast: self.contrast@,
            saturation: self.saturation@,
            opacity: self.opacity@,
            short_opacity: self.short_opacity@,
            blur: self.blur@,
            tint: self.tint@,
            zoom: self.zoom@,
            shock_zoom: self.shock_zoom@,
            slide_x: self.slide_x@,
            slide_y: self.slide_y@,
            fade: optional(self.fade),
            dissolve: optional(self.dissolve),
            scale_keys: views(self.scale_keys@),
            rotation_keys: views(self.rotation_keys@),
            pos_x_keys: views(self.pos_x_keys@),
            pos_y_keys: views(self.pos_y_keys@),
            brightness_keys: views(self.brightness_keys@),
            contrast_keys: views(self.contrast_keys@),
            saturation_keys: views(self.saturation_keys@),
            opacity_keys: views(self.opacity_keys@),
            masks: views(self.masks@),
        }
    }
}

// ---------------------------------------------------------------------------
// Local masks
// ---------------------------------------------------------------------------

/// Whether a number is at least the other.
pub open spec fn at_least(s: Scalar, bits: u32) -> bool {
    !s.nan() && s.key() >= bits
}

fn is_at_least(s: Scalar, bits: u32) -> (yes: bool)
    requires
        bits < crate::scalar::INFINITE,
    ensures
        yes == at_least(s, bits),
{
    let other = Scalar { bits };
    other.le(s)
}

/// Whether a mask layer has a shape.
pub open spec fn has_shape(layer: LocalMaskLayer) -> bool {
    layer.enabled && at_least(layer.strength, THOUSANDTH) && at_least(layer.radius, TEN_THOUSANDTH)
        && (at_least(layer.feather, TEN_THOUSANDTH) || (Scalar { bits: TEN_THOUSANDTH }).below(
        layer.radius,
    ))
}

/// Whether a mask layer changes what it covers.
pub open spec fn has_adjustment(layer: LocalMaskLayer) -> bool {
    (!layer.brightness.nan() && magnitude(layer.brightness.bits) >= THOUSANDTH) || (
    !layer.contrast.nan() && !near_one(layer.contrast)) || (!layer.saturation.nan() && !near_one(
        layer.saturation,
    )) || (!layer.opacity.nan() && !near_one(layer.opacity)) || at_least(
        layer.blur_sigma,
        THOUSANDTH,
    )
}

/// Whether a mask layer has a shape.
pub fn local_mask_layer_has_shape(layer: &LocalMaskLayer) -> (yes: bool)
    ensures
        yes == has_shape(*layer),
{
    let small = Scalar { bits: TEN_THOUSANDTH };
    layer.enabled && is_at_least(layer.strength, THOUSANDTH) && is_at_least(
        layer.radius,
        TEN_THOUSANDTH,
    ) && (is_at_least(layer.feather, TEN_THOUSANDTH) || small.lt(layer.radius))
}

/// Whether a mask layer changes what it covers.
pub fn local_mask_layer_has_adjustment(layer: &LocalMaskLayer) -> (yes: bool)
    ensures
        yes == has_adjustment(*layer),
{
    (!layer.brightness.is_nan() && layer.brightness.abs().bits >= THOUSANDTH) || (
    !layer.contrast.is_nan() && !is_near_one(layer.contrast)) || (!layer.saturation.is_nan()
        && !is_near_one(layer.saturation)) || (!layer.opacity.is_nan() && !is_near_one(
        layer.opacity,
    )) || is_at_least(layer.blur_sigma, THOUSANDTH)
}

/// A number from 0 to 2.
pub open spec fn up_to_two(s: Scalar) -> Scalar {
    s.clamped(Scalar { bits: ZERO }, Scalar { bits: TWO })
}

fn to_up_to_two(s: Scalar) -> (r: Scalar)
    ensures
        r == up_to_two(s),
{
    s.clamp(Scalar { bits: ZERO }, Scalar { bits: TWO })
}

/// A change of brightness, contrast and saturation.
pub open spec fn plain_eq(b: Seq<char>, c: Seq<char>, s: Seq<char>) -> Seq<char> {
    ",eq=brightness='"@
        + b
        + "':contrast='"@
        + c
        + "':saturation='"@
        + s
        + "'"@
}

pub fn plain_eq_text(b: &str, c: &str, s: &str) -> (text: String)
    ensures
        text@ == plain_eq(b@, c@, s@),
{
    let mut text = owned(",eq=brightness='");
    text.append(b);
    text.append("':contrast='");
    text.append(c);
    text.append("':saturation='");
    text.append(s);
    text.append("'");
    text
}

/// A blur.
pub open spec fn plain_blur(sigma: Seq<char>) -> Seq<char> {
    ",gblur=sigma="@
        + sigma
        + ":steps=1"@
}

pub fn plain_blur_text(sigma: &str) -> (text: String)
    ensures
        text@ == plain_blur(sigma@),
{
    let mut text = owned(",gblur=sigma=");
    text.append(sigma);
    text.append(":steps=1");
    text
}

/// A change of the transparency.
pub open spec fn plain_alpha(o: Seq<char>) -> Seq<char> {
    ",colorchannelmixer=aa="@
        + o
}

pub fn plain_alpha_text(o: &str) -> (text: String)
    ensures
        text@ == plain_alpha(o@),
{
    let mut text = owned(",colorchannelmixer=aa=");
    text.append(o);
    text
}

/// A change of all three colours.
pub open spec fn plain_dim(o: Seq<char>) -> Seq<char> {
    ",colorchannelmixer=rr="@
        + o
        + ":gg="@
        + o
        + ":bb="@
        + o
}

pub fn plain_dim_text(o: &str) -> (text: String)
    ensures
        text@ == plain_dim(o@),
{
    let mut text = owned(",colorchannelmixer=rr=");
    text.append(o);
    text.append(":gg=");
    text.append(o);
    text.append(":bb=");
    text.append(o);
    text
}

/// The change of colours of a mask layer.
pub open spec fn mask_eq(layer: LocalMaskLayer, w: MaskWordsView) -> Seq<char> {
    if near_zero(layer.brightness.clamped(Scalar { bits: MINUS_ONE }, Scalar { bits: ONE }))
        && near_one(up_to_two(layer.contrast)) && near_one(up_to_two(layer.saturation)) {
        ""@
    } else {
        plain_eq(w.brightness, w.contrast, w.saturation)
    }
}

fn build_local_mask_eq_filter(layer: &LocalMaskLayer, w: &MaskWords) -> (text: String)
    ensures
        text@ == mask_eq(*layer, w@),
{
    let b = layer.brightness.clamp(Scalar { bits: MINUS_ONE }, Scalar { bits: ONE });
    if is_near_zero(b) && is_near_one(to_up_to_two(layer.contrast)) && is_near_one(
        to_up_to_two(layer.saturation),
    ) {
        owned("")
    } else {
        plain_eq_text(w.brightness.as_str(), w.contrast.as_str(), w.saturation.as_str())
    }
}

/// Whether a number is above a thousandth; what is no number counts as above.
pub open spec fn not_small(s: Scalar) -> bool {
    s.nan() || s.key() > THOUSANDTH
}

fn is_not_small(s: Scalar) -> (yes: bool)
    ensures
        yes == not_small(s),
{
    let t = Scalar { bits: THOUSANDTH };
    s.is_nan() || t.lt(s)
}

/// The blur of a mask layer.
pub open spec fn mask_blur(layer: LocalMaskLayer, w: MaskWordsView) -> Seq<char> {
    if not_small(layer.blur_sigma.clamped(Scalar { bits: ZERO }, Scalar { bits: SIXTY_FOUR })) {
        plain_blur(w.blur)
    } else {
        ""@
    }
}

fn build_local_mask_blur_filter(layer: &LocalMaskLayer, w: &MaskWords) -> (text: String)
    ensures
        text@ == mask_blur(*layer, w@),
{
    if is_not_small(layer.blur_sigma.clamp(Scalar { bits: ZERO }, Scalar { bits: SIXTY_FOUR })) {
        plain_blur_text(w.blur.as_str())
    } else {
        owned("")
    }
}

/// The opacity of a mask layer.
pub open spec fn mask_opacity(layer: LocalMaskLayer, w: MaskWordsView) -> Seq<char> {
    if near_one(share(layer.opacity)) {
        ""@
    } else {
        plain_alpha(w.opacity)
    }
}

fn build_local_mask_opacity_filter(layer: &LocalMaskLayer, w: &MaskWords) -> (text: String)
    ensures
        text@ == mask_opacity(*layer, w@),
{
    if is_near_one(layer.opacity.clamp(Scalar { bits: ZERO }, Scalar { bits: ONE })) {
        owned("")
    } else {
        plain_alpha_text(w.opacity.as_str())
    }
}

/// How far a point is from the middle of a mask.
pub open spec fn mask_distance(x: Seq<char>, y: Seq<char>) -> Seq<char> {
    "hypot((((X+0.5)/W)-"@
        + x
        + ")*(W/max(H,1)),(((Y+0.5)/H)-"@
        + y
        + "))"@
}

pub fn mask_distance_text(x: &str, y: &str) -> (text: String)
    ensures
        text@ == mask_distance(x@, y@),
{
    let mut text = owned("hypot((((X+0.5)/W)-");
    text.append(x);
    text.append(")*(W/max(H,1)),(((Y+0.5)/H)-");
    text.append(y);
    text.append("))");
    text
}

/// How far a point is inside the edge of a mask.
pub open spec fn mask_edge(edge: Seq<char>, distance: Seq<char>, feather: Seq<char>) -> Seq<char> {
    "clip(("@
        + edge
        + "-("@
        + distance
        + "))/("@
        + feather
        + "),0,1)"@
}

pub fn mask_edge_text(edge: &str, distance: &str, feather: &str) -> (text: String)
    ensures
        text@ == mask_edge(edge@, distance@, feather@),
{
    let mut text = owned("clip((");
    text.append(edge);
    text.append("-(");
    text.append(distance);
    text.append("))/(");
    text.append(feather);
    text.append("),0,1)");
    text
}

/// How much a mask covers a point.
pub open spec fn mask_strength(edge: Seq<char>, strength: Seq<char>) -> Seq<char> {
    "clip(("@
        + edge
        + ")*"@
        + strength
        + ",0,1)"@
}

pub fn mask_strength_text(edge: &str, strength: &str) -> (text: String)
    ensures
        text@ == mask_strength(edge@, strength@),
{
    let mut text = owned("clip((");
    text.append(edge);
    text.append(")*");
    text.append(strength);
    text.append(",0,1)");
    text
}

/// How much a mask covers a point.
pub open spec fn mask_expr(w: MaskWordsView) -> Seq<char> {
    mask_strength(mask_edge(w.edge, mask_distance(w.center_x, w.center_y), w.feather), w.strength)
}

fn build_local_mask_expr(w: &MaskWords) -> (text: String)
    ensures
        text@ == mask_expr(w@),
{
    let distance = mask_distance_text(w.center_x.as_str(), w.center_y.as_str());
    let edge = mask_edge_text(w.edge.as_str(), distance.as_str(), w.feather.as_str());
    mask_strength_text(edge.as_str(), w.strength.as_str())
}

/// The name of a picture in the making of a mask.
pub open spec fn mask_tag(prefix: Seq<char>, layer: Seq<char>, what: Seq<char>, i: Seq<char>) -> Seq<char> {
    "["@
        + prefix
        + "_lm"@
        + layer
        + "_"@
        + what
        + "_"@
        + i
        + "]"@
}

pub fn mask_tag_text(prefix: &str, layer: &str, what: &str, i: &str) -> (text: String)
    ensures
        text@ == mask_tag(prefix@, layer@, what@, i@),
{
    let mut text = owned("[");
    text.append(prefix);
    text.append("_lm");
    text.append(layer);
    text.append("_");
    text.append(what);
    text.append("_");
    text.append(i);
    text.append("]");
    text
}

/// One picture as two.
pub open spec fn split_in_two(from: Seq<char>, a: Seq<char>, b: Seq<char>) -> Seq<char> {
    from
        + "split=2"@
        + a
        + b
}

pub fn split_in_two_text(from: &str, a: &str, b: &str) -> (text: String)
    ensures
        text@ == split_in_two(from@, a@, b@),
{
    let mut text = owned(from);
    text.append("split=2");
    text.append(a);
    text.append(b);
    text
}

/// A picture with the changes of a mask.
pub open spec fn mask_work(from: Seq<char>, eq: Seq<char>, blur: Seq<char>, opacity: Seq<char>, to: Seq<char>) -> Seq<char> {
    from
        + "format=bgra"@
        + eq
        + blur
        + opacity
        + to
}

pub fn mask_work_text(from: &str, eq: &str, blur: &str, opacity: &str, to: &str) -> (text: String)
    ensures
        text@ == mask_work(from@, eq@, blur@, opacity@, to@),
{
    let mut text = owned(from);
    text.append("format=bgra");
    text.append(eq);
    text.append(blur);
    text.append(opacity);
    text.append(to);
    text
}

/// Two pictures, blended by a mask.
pub open spec fn mask_blend(a: Seq<char>, b: Seq<char>, m: Seq<char>, to: Seq<char>) -> Seq<char> {
    a
        + b
        + "blend=all_expr='A*(1-("@
        + m
        + "))+B*("@
        + m
        + ")':shortest=1,format=bgra"@
        + to
}

pub fn mask_blend_text(a: &str, b: &str, m: &str, to: &str) -> (text: String)
    ensures
        text@ == mask_blend(a@, b@, m@, to@),
{
    let mut text = owned(a);
    text.append(b);
    text.append("blend=all_expr='A*(1-(");
    text.append(m);
    text.append("))+B*(");
    text.append(m);
    text.append(")':shortest=1,format=bgra");
    text.append(to);
    text
}

/// The filters of one mask layer, behind those before it, and the name of the picture
/// that comes out.
pub open spec fn one_mask(
    layer: LocalMaskLayer,
    w: MaskWordsView,
    n: int,
    prefix: Seq<char>,
    i: int,
    before: (Seq<Seq<char>>, Seq<char>),
) -> (Seq<Seq<char>>, Seq<char>) {
    if !has_shape(layer) || !has_adjustment(layer) {
        before
    } else {
        let orig = mask_tag(prefix, decimal(n), "orig"@, decimal(i));
        let work = mask_tag(prefix, decimal(n), "work"@, decimal(i));
        let fx = mask_tag(prefix, decimal(n), "fx"@, decimal(i));
        let out = mask_tag(prefix, decimal(n), "out"@, decimal(i));
        (
            before.0.push(split_in_two(before.1, orig, work)).push(
                mask_work(
                    work,
                    mask_eq(layer, w),
                    mask_blur(layer, w),
                    mask_opacity(layer, w),
                    fx,
                ),
            ).push(mask_blend(orig, fx, mask_expr(w), out)),
            out,
        )
    }
}

/// The filters of the first `n` mask layers, and the name of the picture that comes out.
pub open spec fn mask_filters(
    layers: Seq<LocalMaskLayer>,
    words: Seq<MaskWordsView>,
    n: int,
    prefix: Seq<char>,
    i: int,
    parts: Seq<Seq<char>>,
    input: Seq<char>,
) -> (Seq<Seq<char>>, Seq<char>)
    decreases n,
{
    if n <= 0 {
        (parts, input)
    } else {
        one_mask(
            layers[n - 1],
            words[n - 1],
            n - 1,
            prefix,
            i,
            mask_filters(layers, words, n - 1, prefix, i, parts, input),
        )
    }
}

fn push_mask(
    parts: &mut Vec<String>,
    layer: &LocalMaskLayer,
    w: &MaskWords,
    n: usize,
    prefix: &str,
    i: usize,
    input: String,
) -> (out: String)
    ensures
        (views(final(parts)@), out@) == one_mask(
            *layer,
            w@,
            n as int,
            prefix@,
            i as int,
            (views(old(parts)@), input@),
        ),
{
    if !local_mask_layer_has_shape(layer) || !local_mask_layer_has_adjustment(layer) {
        return input;
    }
    let n_text = number_text(n);
    let i_text = number_text(i);
    let orig = mask_tag_text(prefix, n_text.as_str(), "orig", i_text.as_str());
    let work = mask_tag_text(prefix, n_text.as_str(), "work", i_text.as_str());
    let fx = mask_tag_text(prefix, n_text.as_str(), "fx", i_text.as_str());
    let out = mask_tag_text(prefix, n_text.as_str(), "out", i_text.as_str());
    push_text(
        parts,
        split_in_two_text(input.as_str(), orig.as_str(), work.as_str()).as_str(),
    );
    let eq = build_local_mask_eq_filter(layer, w);
    let blur = build_local_mask_blur_filter(layer, w);
    let opacity = build_local_mask_opacity_filter(layer, w);
    push_text(
        parts,
        mask_work_text(
            work.as_str(),
            eq.as_str(),
            blur.as_str(),
            opacity.as_str(),
            fx.as_str(),
        ).as_str(),
    );
    let mask = build_local_mask_expr(w);
    push_text(
        parts,
        mask_blend_text(orig.as_str(), fx.as_str(), mask.as_str(), out.as_str()).as_str(),
    );
    out
}

/// Adds the filters of the clip's mask layers; gives the name of the picture that comes
/// out.
pub fn build_local_mask_filters(
    parts: &mut Vec<String>,
    c: &Clip,
    w: &ClipWords,
    input: &str,
    prefix: &str,
    i: usize,
) -> (out: String)
    requires
        w@.tells(c@),
    ensures
        (views(final(parts)@), out@) == mask_filters(
            c@.shown_layers(),
            w@.masks,
            c@.shown_layers().len() as int,
            prefix@,
            i as int,
            views(old(parts)@),
            input@,
        ),
{
    let ghost before = views(parts@);
    let layers = c.get_local_mask_layers();
    let n: usize = layers.len();
    let mut out = owned(input);
    let mut k: usize = 0;
    while k < n
        invariant
            k <= n,
            n == layers.len(),
            n == w.masks.len(),
            (views(parts@), out@) == mask_filters(
                layers@,
                w@.masks,
                k as int,
                prefix@,
                i as int,
                before,
                input@,
            ),
        decreases n - k,
    {
        out = push_mask(parts, &layers[k], &w.masks[k], k, prefix, i, out);
        k += 1;
    }
    out
}

// ---------------------------------------------------------------------------
// Colours
// ---------------------------------------------------------------------------

/// A share of the brightness, as the value of a channel.
pub open spec fn scaled_up(b: Seq<char>) -> Seq<char> {
    "("@
        + b
        + ")*255.0"@
}

pub fn scaled_up_text(b: &str) -> (text: String)
    ensures
        text@ == scaled_up(b@),
{
    let mut text = owned("(");
    text.append(b);
    text.append(")*255.0");
    text
}

/// A channel of the picture with other colours.
pub open spec fn channel(x: Seq<char>, s: Seq<char>, c: Seq<char>, b: Seq<char>) -> Seq<char> {
    "clip((((0.2126*r(X,Y)+0.7152*g(X,Y)+0.0722*b(X,Y)))+(("@
        + x
        + "(X,Y)-((0.2126*r(X,Y)+0.7152*g(X,Y)+0.0722*b(X,Y))))*("@
        + s
        + "))-128)*("@
        + c
        + ")+128+("@
        + b
        + "),0,255)"@
}

pub fn channel_text(x: &str, s: &str, c: &str, b: &str) -> (text: String)
    ensures
        text@ == channel(x@, s@, c@, b@),
{
    let mut text = owned("clip((((0.2126*r(X,Y)+0.7152*g(X,Y)+0.0722*b(X,Y)))+((");
    text.append(x);
    text.append("(X,Y)-((0.2126*r(X,Y)+0.7152*g(X,Y)+0.0722*b(X,Y))))*(");
    text.append(s);
    text.append("))-128)*(");
    text.append(c);
    text.append(")+128+(");
    text.append(b);
    text.append("),0,255)");
    text
}

/// A picture with other colours.
pub open spec fn geq_of(r: Seq<char>, g: Seq<char>, b: Seq<char>) -> Seq<char> {
    ",geq=r='"@
        + r
        + "':g='"@
        + g
        + "':b='"@
        + b
        + "':a='alpha(X,Y)'"@
}

pub fn geq_of_text(r: &str, g: &str, b: &str) -> (text: String)
    ensures
        text@ == geq_of(r@, g@, b@),
{
    let mut text = owned(",geq=r='");
    text.append(r);
    text.append("':g='");
    text.append(g);
    text.append("':b='");
    text.append(b);
    text.append("':a='alpha(X,Y)'");
    text
}

/// A change of brightness, contrast and saturation.
pub open spec fn eq_of(b: Seq<char>, c: Seq<char>, s: Seq<char>, eval: Seq<char>) -> Seq<char> {
    ",eq=brightness='"@
        + b
        + "':contrast='"@
        + c
        + "':saturation='"@
        + s
        + "'"@
        + eval
}

pub fn eq_of_text(b: &str, c: &str, s: &str, eval: &str) -> (text: String)
    ensures
        text@ == eq_of(b@, c@, s@, eval@),
{
    let mut text = owned(",eq=brightness='");
    text.append(b);
    text.append("':contrast='");
    text.append(c);
    text.append("':saturation='");
    text.append(s);
    text.append("'");
    text.append(eval);
    text
}

/// A brightness with that of a layer.
pub open spec fn layer_brightness(x: Seq<char>, amount: Seq<char>, gate: Seq<char>) -> Seq<char> {
    "clip(("@
        + x
        + ")+("@
        + amount
        + ")*("@
        + gate
        + "),-1,1)"@
}

pub fn layer_brightness_text(x: &str, amount: &str, gate: &str) -> (text: String)
    ensures
        text@ == layer_brightness(x@, amount@, gate@),
{
    let mut text = owned("clip((");
    text.append(x);
    text.append(")+(");
    text.append(amount);
    text.append(")*(");
    text.append(gate);
    text.append("),-1,1)");
    text
}

/// A contrast or saturation with that of a layer.
pub open spec fn layer_gain(x: Seq<char>, amount: Seq<char>, gate: Seq<char>) -> Seq<char> {
    "clip(("@
        + x
        + ")*(1+("@
        + amount
        + ")*("@
        + gate
        + ")),0,2)"@
}

pub fn layer_gain_text(x: &str, amount: &str, gate: &str) -> (text: String)
    ensures
        text@ == layer_gain(x@, amount@, gate@),
{
    let mut text = owned("clip((");
    text.append(x);
    text.append(")*(1+(");
    text.append(amount);
    text.append(")*(");
    text.append(gate);
    text.append(")),0,2)");
    text
}

/// The change of colours, computed for each point.
pub open spec fn exact_colors(b: Seq<char>, c: Seq<char>, s: Seq<char>) -> Seq<char> {
    geq_of(
        channel("r"@, s, c, scaled_up(b)),
        channel("g"@, s, c, scaled_up(b)),
        channel("b"@, s, c, scaled_up(b)),
    )
}

fn exact_colors_text(b: &str, c: &str, s: &str) -> (text: String)
    ensures
        text@ == exact_colors(b@, c@, s@),
{
    let add = scaled_up_text(b);
    geq_of_text(
        channel_text("r", s, c, add.as_str()).as_str(),
        channel_text("g", s, c, add.as_str()).as_str(),
        channel_text("b", s, c, add.as_str()).as_str(),
    )
}

/// Brightness, contrast and saturation with those of the layers.
pub open spec fn merged(
    colors: (Seq<char>, Seq<char>, Seq<char>),
    layer: LayerAdjustWordsView,
    gate: Option<Seq<char>>,
) -> (Seq<char>, Seq<char>, Seq<char>) {
    match gate {
        Some(g) => (
            layer_brightness(colors.0, layer.brightness, g),
            layer_gain(colors.1, layer.contrast_gain, g),
            layer_gain(colors.2, layer.saturation_gain, g),
        ),
        None => colors,
    }
}

fn merge_layer(
    b: String,
    c: String,
    s: String,
    layer: &LayerAdjustWords,
    gate: &Option<String>,
) -> (m: (String, String, String))
    ensures
        (m.0@, m.1@, m.2@) == merged((b@, c@, s@), layer@, optional(*gate)),
{
    match gate {
        Some(g) => (
            layer_brightness_text(b.as_str(), layer.brightness.as_str(), g.as_str()),
            layer_gain_text(c.as_str(), layer.contrast_gain.as_str(), g.as_str()),
            layer_gain_text(s.as_str(), layer.saturation_gain.as_str(), g.as_str()),
        ),
        None => (b, c, s),
    }
}

impl ClipWordsView {
    /// Whether each keyframe and each mask layer of the clip has its words.
    pub open spec fn tells(self, c: ClipView) -> bool {
        &&& self.scale_keys.len() == c.keyframes.scale.len()
        &&& self.rotation_keys.len() == c.keyframes.rotation.len()
        &&& self.pos_x_keys.len() == c.keyframes.pos_x.len()
        &&& self.pos_y_keys.len() == c.keyframes.pos_y.len()
        &&& self.brightness_keys.len() == c.keyframes.brightness.len()
        &&& self.contrast_keys.len() == c.keyframes.contrast.len()
        &&& self.saturation_keys.len() == c.keyframes.saturation.len()
        &&& self.opacity_keys.len() == c.keyframes.opacity.len()
        &&& self.masks.len() == c.shown_layers().len()
    }

    /// Brightness, contrast and saturation of the clip at the time `t`.
    pub open spec fn colors(self, c: ClipView, t: Seq<char>) -> (Seq<char>, Seq<char>, Seq<char>) {
        (
            keyframe_expr(
                worded(c.keyframes.brightness, self.brightness_keys),
                self.brightness,
                t,
            ),
            keyframe_expr(worded(c.keyframes.contrast, self.contrast_keys), self.contrast, t),
            keyframe_expr(
                worded(c.keyframes.saturation, self.saturation_keys),
                self.saturation,
                t,
            ),
        )
    }
}

/// Whether the colours of the clip have keyframes.
pub open spec fn has_color_keys(c: ClipView) -> bool {
    c.keyframes.brightness.len() > 0 || c.keyframes.contrast.len() > 0
        || c.keyframes.saturation.len() > 0
}

fn color_keys(c: &Clip) -> (yes: bool)
    ensures
        yes == has_color_keys(c@),
{
    c.brightness_keyframes.len() > 0 || c.contrast_keyframes.len() > 0
        || c.saturation_keyframes.len() > 0
}

/// Whether the clip's own colours are changed too little to be seen.
pub open spec fn plain_colors(c: ClipView) -> bool {
    let (b, k, s) = c.color();
    near_zero(b) && near_one(k) && near_one(s)
}

/// The change of the clip's colours.
pub open spec fn color_filter(
    c: ClipView,
    w: ClipWordsView,
    layer: LayerAdjustWordsView,
    gate: Option<Seq<char>>,
    upper_gate: Option<Seq<char>>,
    mode: ExportColorMode,
) -> Seq<char> {
    let keys = has_color_keys(c);
    if !keys && gate is None && plain_colors(c) {
        ""@
    } else {
        match mode {
            ExportColorMode::Fast => fast_colors(c, w, layer, gate),
            ExportColorMode::Hybrid => if keys {
                slow_colors(c, w, layer, upper_gate)
            } else {
                fast_colors(c, w, layer, gate)
            },
            ExportColorMode::Exact => slow_colors(c, w, layer, upper_gate),
        }
    }
}

/// The change of colours that is computed once for each picture.
pub open spec fn fast_colors(
    c: ClipView,
    w: ClipWordsView,
    layer: LayerAdjustWordsView,
    gate: Option<Seq<char>>,
) -> Seq<char> {
    let (b, k, s) = merged(w.colors(c, "t"@), layer, gate);
    eq_of(
        b,
        k,
        s,
        if has_color_keys(c) || gate is Some {
            ":eval=frame"@
        } else {
            ""@
        },
    )
}

/// The change of colours that is computed for each point.
pub open spec fn slow_colors(
    c: ClipView,
    w: ClipWordsView,
    layer: LayerAdjustWordsView,
    gate: Option<Seq<char>>,
) -> Seq<char> {
    let (b, k, s) = merged(w.colors(c, "T"@), layer, gate);
    exact_colors(b, k, s)
}

fn fast_colors_text(
    c: &Clip,
    w: &ClipWords,
    layer: &LayerAdjustWords,
    gate: &Option<String>,
) -> (text: String)
    requires
        w@.tells(c@),
    ensures
        text@ == fast_colors(c@, w@, layer@, optional(*gate)),
{
    let (b, k, s) = merge_layer(
        build_keyframe_expr(&c.brightness_keyframes, &w.brightness_keys, w.brightness.as_str(), "t"),
        build_keyframe_expr(&c.contrast_keyframes, &w.contrast_keys, w.contrast.as_str(), "t"),
        build_keyframe_expr(&c.saturation_keyframes, &w.saturation_keys, w.saturation.as_str(), "t"),
        layer,
        gate,
    );
    let eval = if color_keys(c) || gate.is_some() {
        ":eval=frame"
    } else {
        ""
    };
    eq_of_text(b.as_str(), k.as_str(), s.as_str(), eval)
}

fn slow_colors_text(
    c: &Clip,
    w: &ClipWords,
    layer: &LayerAdjustWords,
    gate: &Option<String>,
) -> (text: String)
    requires
        w@.tells(c@),
    ensures
        text@ == slow_colors(c@, w@, layer@, optional(*gate)),
{
    let (b, k, s) = merge_layer(
        build_keyframe_expr(&c.brightness_keyframes, &w.brightness_keys, w.brightness.as_str(), "T"),
        build_keyframe_expr(&c.contrast_keyframes, &w.contrast_keys, w.contrast.as_str(), "T"),
        build_keyframe_expr(&c.saturation_keyframes, &w.saturation_keys, w.saturation.as_str(), "T"),
        layer,
        gate,
    );
    exact_colors_text(b.as_str(), k.as_str(), s.as_str())
}

/// The change of the clip's colours.
pub fn build_eq_filter(
    c: &Clip,
    w: &ClipWords,
    layer: &LayerAdjustWords,
    gate: &Option<String>,
    upper_gate: &Option<String>,
    mode: ExportColorMode,
) -> (text: String)
    requires
        w@.tells(c@),
    ensures
        text@ == color_filter(c@, w@, layer@, optional(*gate), optional(*upper_gate), mode),
{
    let keys = color_keys(c);
    if !keys && gate.is_none() && is_near_zero(c.get_brightness()) && is_near_one(c.get_contrast())
        && is_near_one(c.get_saturation()) {
        return owned("");
    }
    match mode {
        ExportColorMode::Fast => fast_colors_text(c, w, layer, gate),
        ExportColorMode::Hybrid => if keys {
            slow_colors_text(c, w, layer, upper_gate)
        } else {
            fast_colors_text(c, w, layer, gate)
        },
        ExportColorMode::Exact => slow_colors_text(c, w, layer, upper_gate),
    }
}

// ---------------------------------------------------------------------------
// Opacity, blur and tint
// ---------------------------------------------------------------------------

/// A picture with another transparency.
pub open spec fn alpha_by(x: Seq<char>) -> Seq<char> {
    ",geq=r='r(X,Y)':g='g(X,Y)':b='b(X,Y)':a='alpha(X,Y)*("@
        + x
        + ")'"@
}

pub fn alpha_by_text(x: &str) -> (text: String)
    ensures
        text@ == alpha_by(x@),
{
    let mut text = owned(",geq=r='r(X,Y)':g='g(X,Y)':b='b(X,Y)':a='alpha(X,Y)*(");
    text.append(x);
    text.append(")'");
    text
}

/// A darker picture.
pub open spec fn dimmed_by(x: Seq<char>) -> Seq<char> {
    ",geq=r='r(X,Y)*("@
        + x
        + ")':g='g(X,Y)*("@
        + x
        + ")':b='b(X,Y)*("@
        + x
        + ")':a='alpha(X,Y)'"@
}

pub fn dimmed_by_text(x: &str) -> (text: String)
    ensures
        text@ == dimmed_by(x@),
{
    let mut text = owned(",geq=r='r(X,Y)*(");
    text.append(x);
    text.append(")':g='g(X,Y)*(");
    text.append(x);
    text.append(")':b='b(X,Y)*(");
    text.append(x);
    text.append(")':a='alpha(X,Y)'");
    text
}

/// The product with another expression, if there is one.
pub open spec fn times_some(x: Seq<char>, y: Option<Seq<char>>) -> Seq<char> {
    match y {
        Some(y) => product(x, y),
        None => x,
    }
}

fn times_some_text(x: String, y: &Option<String>) -> (text: String)
    ensures
        text@ == times_some(x@, optional(*y)),
{
    match y {
        Some(y) => product_text(x.as_str(), y.as_str()),
        None => x,
    }
}

/// The dissolve, if it counts.
pub open spec fn counted_dissolve(w: ClipWordsView, include_dissolve: bool) -> Option<Seq<char>> {
    if include_dissolve {
        w.dissolve
    } else {
        None
    }
}

/// Whether the opacity changes over time.
pub open spec fn opacity_varies(
    c: ClipView,
    w: ClipWordsView,
    include_dissolve: bool,
    factor: Option<Seq<char>>,
) -> bool {
    c.keyframes.opacity.len() > 0 || w.fade is Some || counted_dissolve(w, include_dissolve) is Some
        || factor is Some
}

/// The clip's opacity.
pub open spec fn opacity_filter(
    c: ClipView,
    w: ClipWordsView,
    mode: OpacityMode,
    include_dissolve: bool,
    factor: Option<Seq<char>>,
) -> Seq<char> {
    let varies = opacity_varies(c, w, include_dissolve, factor);
    let x = times_some(
        times_some(
            times_some(
                keyframe_expr(worded(c.keyframes.opacity, w.opacity_keys), w.opacity, "T"@),
                w.fade,
            ),
            counted_dissolve(w, include_dissolve),
        ),
        factor,
    );
    if !varies && near_one(share(c.effect(EffectKind::Opacity)->Opacity_alpha)) {
        ""@
    } else {
        match mode {
            OpacityMode::AlphaOnly => if varies {
                alpha_by(x)
            } else {
                plain_alpha(w.short_opacity)
            },
            OpacityMode::MultiplyRgb => if varies {
                dimmed_by(x)
            } else {
                plain_dim(w.short_opacity)
            },
        }
    }
}

/// The clip's opacity.
pub fn build_opacity_filter(
    c: &Clip,
    w: &ClipWords,
    mode: OpacityMode,
    include_dissolve: bool,
    factor: &Option<String>,
) -> (text: String)
    requires
        w@.tells(c@),
    ensures
        text@ == opacity_filter(c@, w@, mode, include_dissolve, optional(*factor)),
{
    let varies = c.opacity_keyframes.len() > 0 || w.fade.is_some() || (include_dissolve
        && w.dissolve.is_some()) || factor.is_some();
    let opacity = c.get_opacity().clamp(Scalar { bits: ZERO }, Scalar { bits: ONE });
    if !varies && is_near_one(opacity) {
        return owned("");
    }
    if !varies {
        return match mode {
            OpacityMode::AlphaOnly => plain_alpha_text(w.short_opacity.as_str()),
            OpacityMode::MultiplyRgb => plain_dim_text(w.short_opacity.as_str()),
        };
    }
    let own = build_keyframe_expr(
        &c.opacity_keyframes,
        &w.opacity_keys,
        w.opacity.as_str(),
        "T",
    );
    let faded = times_some_text(own, &w.fade);
    let none: Option<String> = None;
    let dissolved = times_some_text(
        faded,
        if include_dissolve {
            &w.dissolve
        } else {
            &none
        },
    );
    let x = times_some_text(dissolved, factor);
    match mode {
        OpacityMode::AlphaOnly => alpha_by_text(x.as_str()),
        OpacityMode::MultiplyRgb => dimmed_by_text(x.as_str()),
    }
}

/// A blur for some time.
pub open spec fn timed_gblur(sigma: Seq<char>, gate: Seq<char>) -> Seq<char> {
    ",gblur=sigma="@
        + sigma
        + ":steps=1:enable='"@
        + gate
        + "'"@
}

pub fn timed_gblur_text(sigma: &str, gate: &str) -> (text: String)
    ensures
        text@ == timed_gblur(sigma@, gate@),
{
    let mut text = owned(",gblur=sigma=");
    text.append(sigma);
    text.append(":steps=1:enable='");
    text.append(gate);
    text.append("'");
    text
}

/// The blur of the clip and of the layers over it.
pub open spec fn blur_filter(
    c: ClipView,
    w: ClipWordsView,
    effects: LayerColorBlurEffects,
    layer: LayerAdjustWordsView,
    gate: Option<Seq<char>>,
) -> Seq<char> {
    let sigma = c.effect(EffectKind::GaussianBlur)->GaussianBlur_sigma.clamped(
        Scalar { bits: ZERO },
        Scalar { bits: SIXTY_FOUR },
    );
    let own = if (Scalar { bits: THOUSANDTH }).below(sigma) {
        plain_blur(w.blur)
    } else {
        ""@
    };
    match gate {
        Some(g) if (Scalar { bits: THOUSANDTH }).below(effects.in_range().blur_sigma) => own
            + timed_gblur(layer.blur, g),
        _ => own,
    }
}

/// The blur of the clip and of the layers over it.
pub fn build_blur_filter(
    c: &Clip,
    w: &ClipWords,
    effects: LayerColorBlurEffects,
    layer: &LayerAdjustWords,
    gate: &Option<String>,
) -> (text: String)
    ensures
        text@ == blur_filter(c@, w@, effects, layer@, optional(*gate)),
{
    let seen = Scalar { bits: THOUSANDTH };
    let sigma = c.get_blur_sigma().clamp(Scalar { bits: ZERO }, Scalar { bits: SIXTY_FOUR });
    let mut text = if seen.lt(sigma) {
        plain_blur_text(w.blur.as_str())
    } else {
        owned("")
    };
    if let Some(g) = gate {
        if seen.lt(effects.normalized().blur_sigma) {
            text.append(timed_gblur_text(layer.blur.as_str(), g.as_str()).as_str());
        }
    }
    text
}

/// A colour over the picture.
pub open spec fn tinted(color: Seq<char>) -> Seq<char> {
    ",drawbox=t=fill:replace=0:c="@
        + color
}

pub fn tinted_text(color: &str) -> (text: String)
    ensures
        text@ == tinted(color@),
{
    let mut text = owned(",drawbox=t=fill:replace=0:c=");
    text.append(color);
    text
}

/// The tint over the clip.
pub open spec fn tint_filter(c: ClipView, w: ClipWordsView) -> Seq<char> {
    if c.effect(EffectKind::Tint)->Tint_alpha.below(Scalar { bits: LEAST_TINT }) {
        ""@
    } else {
        tinted(w.tint)
    }
}

/// The tint over the clip.
pub fn build_tint_filter(c: &Clip, w: &ClipWords) -> (text: String)
    ensures
        text@ == tint_filter(c@, w@),
{
    let (_, _, _, alpha) = c.get_hsla_overlay();
    if alpha.lt(Scalar { bits: LEAST_TINT }) {
        owned("")
    } else {
        tinted_text(w.tint.as_str())
    }
}

} // verus!
