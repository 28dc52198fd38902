//! What the filters of a clip do to its picture.
use crate::clip::ClipView;
use crate::clip_effects::EffectKind;
use crate::effect::LocalMaskLayer;
use crate::export_clip::{DrawingView, ExportClipView, LookView};
use crate::export_effects::{
    blur_filter, one_mask, tint_filter, ClipWordsView, MaskWordsView, OpacityMode,
};
use crate::export_layers::{
    fade_in_part, fade_out_part, layer_gate, layer_opacity, overlap, script_blur, script_lut,
    script_overlay, script_sharpening, ExportLayerView,
};
use crate::filter_words::{keyframe_expr, keys_from, seconds_in_six_digits, KeyWordView};
use crate::graph_laws::{laid_on_canvas, time_fits};
use crate::layer::LayerEffectClipView;
use crate::modes::ExportColorMode;
use crate::text::decimal;
use vstd::prelude::*;

verus! {

// ---------------------------------------------------------------------------
// Keyframes in words
// ---------------------------------------------------------------------------

/// The words of a line from one keyframe to the next, which is left at the time of the next; what
/// divides is at least a microsecond.
pub open spec fn line_between(a: KeyWordView, b: KeyWordView, t: Seq<char>) -> Seq<char> {
    "if(lt("@ + t + ","@ + seconds_in_six_digits(b.time as nat) + "),"@ + (a.value + " + ("@
        + b.value + "-"@ + a.value + ")*("@ + t + "-"@ + seconds_in_six_digits(a.time as nat)
        + ")/"@ + seconds_in_six_digits(
        (if b.time - a.time < 1000 {
            1000
        } else {
            b.time - a.time
        }) as nat,
    )) + ","@
}

/// The lines between the keyframes from one index to another, in their order.
pub open spec fn lines_between(keys: Seq<KeyWordView>, from: int, to: int, t: Seq<char>) -> Seq<char>
    decreases to - from,
{
    if from >= to {
        Seq::empty()
    } else {
        line_between(keys[from], keys[from + 1], t) + lines_between(keys, from + 1, to, t)
    }
}

/// As many closing brackets.
pub open spec fn closing(n: int) -> Seq<char> {
    Seq::new(
        if n < 0 {
            0
        } else {
            n as nat
        },
        |i: int| ')',
    )
}

/// Whether the times of keyframes can be told and come one after the other.
pub open spec fn keys_fit(keys: Seq<KeyWordView>) -> bool {
    &&& forall|i: int| 0 <= i < keys.len() ==> time_fits(#[trigger] keys[i].time)
    &&& forall|i: int, j: int|
        0 <= i < j < keys.len() ==> #[trigger] keys[i].time <= #[trigger] keys[j].time
}

proof fn lemma_regroup(p: Seq<char>, l: Seq<char>, v: Seq<char>, c: Seq<char>, z: Seq<char>)
    ensures
        p + (l + v + c) + z == (p + l) + v + (c + z),
{
    assert(p + (l + v + c) + z =~= (p + l) + v + (c + z));
}

proof fn lemma_closing(n: int)
    requires
        n >= 0,
    ensures
        closing(n + 1) == closing(n) + ")"@,
{
    reveal_strlit(")");
    assert(closing(n + 1) =~= closing(n) + ")"@);
}

proof fn lemma_keys_from(keys: Seq<KeyWordView>, i: int, t: Seq<char>)
    requires
        keys_fit(keys),
        0 <= i < keys.len(),
    ensures
        keys_from(keys, i, t) == lines_between(keys, i, keys.len() - 1, t) + keys.last().value
            + closing(keys.len() - 1 - i),
    decreases keys.len() - i,
{
    let last = keys.len() - 1;
    if i + 1 >= keys.len() {
        assert(keys_from(keys, i, t) =~= lines_between(keys, i, last, t) + keys.last().value
            + closing(0));
    } else {
        lemma_keys_from(keys, i + 1, t);
        lemma_closing(last - i - 1);
        assert(keys[i].time <= keys[i + 1].time);
        assert(time_fits(keys[i].time) && time_fits(keys[i + 1].time));
        let rest = lines_between(keys, i + 1, last, t);
        lemma_regroup(
            line_between(keys[i], keys[i + 1], t),
            rest,
            keys.last().value,
            closing(last - i - 1),
            ")"@,
        );
        assert(keys_from(keys, i, t) == line_between(keys[i], keys[i + 1], t) + (rest
            + keys.last().value + closing(last - i - 1)) + ")"@);
    }
}

/// Keyframes in words are the first value up to the time of the first keyframe, a line between each
/// two neighbours up to the time of the later one, and the last value from there on.
pub proof fn keyframes_are_joined_by_lines(
    keys: Seq<KeyWordView>,
    fallback: Seq<char>,
    t: Seq<char>,
)
    requires
        keys_fit(keys),
    ensures
        keys.len() == 0 ==> keyframe_expr(keys, fallback, t) == fallback,
        keys.len() == 1 ==> keyframe_expr(keys, fallback, t) == keys[0].value,
        keys.len() > 1 ==> keyframe_expr(keys, fallback, t) == "if(lt("@ + t + ","@
            + seconds_in_six_digits(keys[0].time as nat) + "),"@ + keys[0].value + ","@
            + lines_between(keys, 0, keys.len() - 1, t) + keys.last().value + closing(
            keys.len() as int,
        ),
{
    if keys.len() > 1 {
        lemma_keys_from(keys, 0, t);
        let n = keys.len() as int;
        lemma_closing(n - 1);
        assert(time_fits(keys[0].time));
        lemma_regroup(
            "if(lt("@ + t + ","@ + seconds_in_six_digits(keys[0].time as nat) + "),"@
                + keys[0].value + ","@,
            lines_between(keys, 0, n - 1, t),
            keys.last().value,
            closing(n - 1),
            ")"@,
        );
    }
}

// ---------------------------------------------------------------------------
// The look of a clip
// ---------------------------------------------------------------------------

/// Whether nothing of a clip's look changes over time.
pub open spec fn stands_still(c: ClipView) -> bool {
    &&& c.keyframes.scale.len() == 0
    &&& c.keyframes.rotation.len() == 0
    &&& c.keyframes.pos_x.len() == 0
    &&& c.keyframes.pos_y.len() == 0
    &&& c.keyframes.brightness.len() == 0
    &&& c.keyframes.contrast.len() == 0
    &&& c.keyframes.saturation.len() == 0
    &&& c.keyframes.opacity.len() == 0
}

/// The words of a change of colours that is told once for the whole picture.
spec fn told_colors(b: Seq<char>, k: Seq<char>, s: Seq<char>) -> Seq<char> {
    ",eq=brightness='"@ + b + "':contrast='"@ + k + "':saturation='"@ + s + "'"@
}

/// Where neither keyframes nor layers change them, the colours of a clip are those that were set;
/// those that are what they are without a change are left as they are, up to a thousandth.
pub proof fn set_colors_are_exported(look: LookView, c: ClipView, w: ClipWordsView)
    requires
        stands_still(c),
        look.layers.len() == 0,
    ensures
        ({
            let (b, k, s) = c.color();
            let unchanged = (b.bits <= 0x3a83_126f || 0x8000_0000 <= b.bits <= 0xba83_126f)
                && 0x3f7f_be77 <= k.bits <= 0x3f80_20c4 && 0x3f7f_be77 <= s.bits <= 0x3f80_20c4;
            &&& unchanged ==> look.colors(c, w) == ""@
            &&& !unchanged && look.color_mode != ExportColorMode::Exact ==> look.colors(c, w)
                == ",eq=brightness='"@ + w.brightness + "':contrast='"@ + w.contrast
                + "':saturation='"@ + w.saturation + "'"@
        }),
{
    assert(look.gate(c, "t"@) is None);
    let told = told_colors(w.brightness, w.contrast, w.saturation);
    reveal_strlit("");
    assert(told + ""@ =~= told);
}

/// Where nothing changes it over time, the opacity of a clip is the one that was set: the points are
/// that much less opaque, or that much darker where the picture has no other under it. An opacity
/// of 1 is left as it is, up to a thousandth.
pub proof fn set_opacity_is_exported(
    look: LookView,
    c: ClipView,
    w: ClipWordsView,
    mode: OpacityMode,
    include_dissolve: bool,
)
    requires
        stands_still(c),
        look.layers.len() == 0,
        w.fade is None,
        w.dissolve is None || !include_dissolve,
    ensures
        ({
            let o = c.effect(EffectKind::Opacity)->Opacity_alpha.bits;
            let opaque = 0x3f7f_be77 <= o <= 0x7f80_0000;
            &&& opaque ==> look.opacity(c, w, mode, include_dissolve) == ""@
            &&& o < 0x3f7f_be77 && mode == OpacityMode::AlphaOnly ==> look.opacity(
                c,
                w,
                mode,
                include_dissolve,
            ) == ",colorchannelmixer=aa="@ + w.short_opacity
            &&& o < 0x3f7f_be77 && mode == OpacityMode::MultiplyRgb ==> look.opacity(
                c,
                w,
                mode,
                include_dissolve,
            ) == ",colorchannelmixer=rr="@ + w.short_opacity + ":gg="@ + w.short_opacity + ":bb="@
                + w.short_opacity
        }),
{
    assert(layer_opacity(c, look.layers, "T"@) is None);
}

/// A fade, and the other half of a dissolve, are multiplied to the opacity, for each picture.
pub proof fn fades_are_exported(
    look: LookView,
    c: ClipView,
    w: ClipWordsView,
    mode: OpacityMode,
    fade: Seq<char>,
)
    requires
        stands_still(c),
        look.layers.len() == 0,
        w.fade == Some(fade),
    ensures
        mode == OpacityMode::AlphaOnly ==> look.opacity(c, w, mode, false)
            == ",geq=r='r(X,Y)':g='g(X,Y)':b='b(X,Y)':a='alpha(X,Y)*("@ + ("("@ + w.opacity
            + ")*("@ + fade + ")"@) + ")'"@,
        mode == OpacityMode::MultiplyRgb ==> look.opacity(c, w, mode, false) == ",geq=r='r(X,Y)*("@
            + ("("@ + w.opacity + ")*("@ + fade + ")"@) + ")':g='g(X,Y)*("@ + ("("@ + w.opacity
            + ")*("@ + fade + ")"@) + ")':b='b(X,Y)*("@ + ("("@ + w.opacity + ")*("@ + fade
            + ")"@) + ")':a='alpha(X,Y)'"@,
        w.dissolve matches Some(dissolve) ==> mode == OpacityMode::AlphaOnly ==> look.opacity(
            c,
            w,
            mode,
            true,
        ) == ",geq=r='r(X,Y)':g='g(X,Y)':b='b(X,Y)':a='alpha(X,Y)*("@ + ("("@ + ("("@ + w.opacity
            + ")*("@ + fade + ")"@) + ")*("@ + dissolve + ")"@) + ")'"@,
{
    assert(layer_opacity(c, look.layers, "T"@) is None);
}

/// Where nothing changes it over time, the picture of a clip that no layer lies over is the one that
/// was set: it is as large as the canvas times its scale, turned by its rotation, blurred by its blur
/// and tinted by its tint, in this order, before it is made less opaque.
pub proof fn set_look_is_exported(
    look: LookView,
    c: ClipView,
    w: ClipWordsView,
    input: int,
    mode: OpacityMode,
    include_dissolve: bool,
    tag: Seq<char>,
)
    requires
        stands_still(c),
        look.layers.len() == 0,
        time_fits(c.source_in),
        time_fits(c.duration),
        time_fits(c.source_in + c.duration),
    ensures
        ({
            let scale = "("@ + w.scale + ")*("@ + w.zoom + ")*("@ + w.shock_zoom + ")"@;
            let turn = c.effect(EffectKind::Transform)->Transform_rotation_deg.bits;
            let turned = if turn <= 0x38d1_b717 || 0x8000_0000 <= turn <= 0xb8d1_b717 {
                ""@
            } else {
                ",rotate='("@ + w.rotation + ")*PI/180':ow='rotw(iw)':oh='roth(ih)':c=black@0"@
            };
            let blur = c.effect(EffectKind::GaussianBlur)->GaussianBlur_sigma.bits;
            let blurred = if 0x3a83_126f < blur <= 0x7f80_0000 {
                ",gblur=sigma="@ + w.blur + ":steps=1"@
            } else {
                ""@
            };
            let tint = c.effect(EffectKind::Tint)->Tint_alpha.bits;
            let tinted = if 0x3ba3_d70a <= tint <= 0x7f80_0000 {
                ",drawbox=t=fill:replace=0:c="@ + w.tint
            } else {
                ""@
            };
            let opacity = look.opacity(c, w, mode, include_dissolve);
            let opaque = if opacity.len() == 0 {
                ""@
            } else {
                ",format=bgra"@
            };
            tint <= 0x7f80_0000 || 0x8000_0000 <= tint <= 0xff80_0000 ==> look.picture(
                c,
                w,
                input,
                mode,
                include_dissolve,
                tag,
            ) == "["@ + decimal(input) + ":v:0]fps="@ + decimal(look.fps)
                + ",setsar=1,trim=start="@ + seconds_in_six_digits(c.source_in as nat) + ":end="@
                + seconds_in_six_digits((c.source_in + c.duration) as nat)
                + ",setpts=PTS-STARTPTS,format=bgra"@ + look.colors(c, w) + ",scale=w='"@ + ("("@
                + look.width_words + ")*("@ + scale + ")"@) + "':h='"@ + ("("@ + look.height_words
                + ")*("@ + scale + ")"@) + "':force_original_aspect_ratio=decrease:eval=frame"@
                + (turned + blurred + tinted + opaque + opacity + tag)
        }),
{
    reveal(LookView::picture);
    assert(look.gate(c, "t"@) is None);
    reveal_strlit("");
    let turned = crate::export_clip::rotation_filter(c, w);
    let blurred = blur_filter(c, w, look.effects, look.adjust, None);
    let tinted = tint_filter(c, w);
    let opacity = look.opacity(c, w, mode, include_dissolve);
    let opaque = if opacity.len() == 0 {
        ""@
    } else {
        ",format=bgra"@
    };
    assert(look.tail(c, w, mode, include_dissolve, tag) == turned + blurred + tinted + opaque
        + opacity + tag) by {
        reveal(LookView::tail);
        assert(script_blur(c, look.layers, "t"@) == ""@);
        assert(script_sharpening(c, look.layers, "t"@) == ""@);
        assert(script_lut(c, look.layers, "T"@) == ""@);
        assert(script_overlay(c, look.layers, "T"@) == ""@);
        assert(blurred + ""@ =~= blurred);
        assert(turned + blurred + ""@ + ""@ =~= turned + blurred);
        assert(turned + blurred + tinted + ""@ =~= turned + blurred + tinted);
    }
}

/// Where nothing moves it, the picture of a clip lies in the middle of its canvas, moved by the share
/// of the canvas that was set, and by its slides.
pub proof fn set_place_is_exported(
    look: LookView,
    e: ExportClipView,
    d: DrawingView,
    parts: Seq<Seq<char>>,
)
    requires
        stands_still(e.clip),
    ensures
        exists|content: Seq<char>|
            look.drawn(e, d, parts).last() == #[trigger] laid_on_canvas(
                d.prefix,
                d.index,
                content,
                "'(W-w)"@ + "/2 + ("@ + ("("@ + e.words.pos_x + ")+("@ + e.words.slide_x + ")"@)
                    + ") * "@ + look.width_words + "'"@,
                "'(H-h)"@ + "/2 + ("@ + ("("@ + e.words.pos_y + ")+("@ + e.words.slide_y + ")"@)
                    + ") * "@ + look.height_words + "'"@,
            ),
{
    reveal(LookView::drawn);
    let base = crate::export_clip::clip_tag(d.prefix, "content_base"@, decimal(d.index));
    let canvas = crate::export_clip::clip_tag(d.prefix, "canvas"@, decimal(d.index));
    let two = parts.push(
        crate::export_clip::empty_canvas(
            decimal(look.width),
            decimal(look.height),
            decimal(look.fps),
            crate::filter_words::full(e.clip.duration),
            canvas,
        ),
    ).push(look.picture(e.clip, e.words, d.input, d.mode, d.include_dissolve, base));
    let tag = look.masked(e, d, two, base).1;
    let x = crate::export_clip::offset("(W-w)"@, e.words.x_expr(e.clip), look.width_words);
    let y = crate::export_clip::offset("(H-h)"@, e.words.y_expr(e.clip), look.height_words);
    assert("'"@ + "(W-w)"@ =~= "'(W-w)"@) by {
        reveal_strlit("'");
        reveal_strlit("(W-w)");
        reveal_strlit("'(W-w)");
    }
    assert("'"@ + "(H-h)"@ =~= "'(H-h)"@) by {
        reveal_strlit("'");
        reveal_strlit("(H-h)");
        reveal_strlit("'(H-h)");
    }
    assert(look.drawn(e, d, parts).last() == laid_on_canvas(d.prefix, d.index, tag, x, y));
}

// ---------------------------------------------------------------------------
// Masks
// ---------------------------------------------------------------------------

/// A mask that is off, or of no strength or size, leaves the picture alone. One that changes the
/// brightness within a circle has the picture twice, changes the second, and lays it over the first
/// as far as a point is inside the edge of the circle, and that strongly.
pub proof fn mask_changes_its_circle(
    layer: LocalMaskLayer,
    w: MaskWordsView,
    n: int,
    prefix: Seq<char>,
    i: int,
    parts: Seq<Seq<char>>,
    input: Seq<char>,
)
    ensures
        !layer.enabled || layer.strength.bits < 0x3a83_126f || layer.radius.bits < 0x38d1_b717
            ==> one_mask(layer, w, n, prefix, i, (parts, input)) == (parts, input),
        layer.enabled && 0x3a83_126f <= layer.strength.bits <= 0x7f80_0000 && 0x38d1_b717
            < layer.radius.bits <= 0x7f80_0000 && 0x3a83_126f < layer.brightness.bits
            <= 0x7f80_0000 && layer.blur_sigma.bits == 0 && layer.opacity.bits == 0x3f80_0000 ==> ({
            let named = |what: Seq<char>|
                "["@ + prefix + "_lm"@ + decimal(n) + "_"@ + what + "_"@ + decimal(i) + "]"@;
            let distance = "hypot((((X+0.5)/W)-"@ + w.center_x + ")*(W/max(H,1)),(((Y+0.5)/H)-"@
                + w.center_y + "))"@;
            let inside = "clip(("@ + w.edge + "-("@ + distance + "))/("@ + w.feather + "),0,1)"@;
            let covered = "clip(("@ + inside + ")*"@ + w.strength + ",0,1)"@;
            let (after, out) = one_mask(layer, w, n, prefix, i, (parts, input));
            &&& out == named("out"@)
            &&& after == parts + seq![
                input + "split=2"@ + named("orig"@) + named("work"@),
                named("work"@) + "format=bgra"@ + (",eq=brightness='"@ + w.brightness
                    + "':contrast='"@ + w.contrast + "':saturation='"@ + w.saturation + "'"@)
                    + named("fx"@),
                named("orig"@) + named("fx"@) + "blend=all_expr='A*(1-("@ + covered + "))+B*("@
                    + covered + ")':shortest=1,format=bgra"@ + named("out"@),
            ]
        }),
{
    reveal_strlit("");
    let work = "["@ + prefix + "_lm"@ + decimal(n) + "_"@ + "work"@ + "_"@ + decimal(i) + "]"@;
    let eq = ",eq=brightness='"@ + w.brightness + "':contrast='"@ + w.contrast
        + "':saturation='"@ + w.saturation + "'"@;
    assert(work + "format=bgra"@ + eq + ""@ + ""@ =~= work + "format=bgra"@ + eq);
}

// ---------------------------------------------------------------------------
// Layers
// ---------------------------------------------------------------------------

/// A layer is shown over a clip at just those moments of the clip at which both are shown. Where they
/// have at most half a thousandth of a second in common it is not shown.
pub proof fn layer_is_shown_where_both_are(c: ClipView, l: LayerEffectClipView)
    requires
        time_fits(c.start),
        time_fits(l.start),
        0 < c.duration,
        0 < l.duration,
        time_fits(c.start + c.duration),
        time_fits(l.start + l.duration),
    ensures
        match overlap(c, l) {
            Some((from, to)) => {
                &&& to - from > 500_000
                &&& forall|x: int|
                    (#[trigger] time_fits(x) && from <= x < to) <==> (time_fits(x) && c.start <= c.start
                        + x < c.start + c.duration && l.start <= c.start + x < l.start
                        + l.duration)
            },
            None => forall|x: int, y: int|
                c.start <= x <= y <= c.start + c.duration && l.start <= x <= y <= l.start
                    + l.duration && #[trigger] time_fits(x) && #[trigger] time_fits(y) ==> y - x
                    <= 500_000,
        },
{
    reveal(overlap);
}

/// A layer that lies over a clip is seen between the two times at which it begins and ends there.
pub proof fn one_layer_is_seen_while_it_lasts(c: ClipView, l: ExportLayerView, t: Seq<char>)
    requires
        overlap(c, l.clip) matches Some((from, to)) && time_fits(from) && time_fits(to),
    ensures
        overlap(c, l.clip) matches Some((from, to)) ==> layer_gate(c, seq![l], t, false) == Some(
            "clip("@ + ("between("@ + t + ","@ + seconds_in_six_digits(from as nat) + ","@
                + seconds_in_six_digits(to as nat) + ")"@) + ",0,1)"@,
        ),
{
    let f = |x: ExportLayerView| crate::export_layers::gate_piece(c, x.clip, t, false);
    let one = seq![l];
    assert(one.drop_last() =~= seq![]);
    assert(one.last() == l);
    reveal_with_fuel(crate::export_layers::gathered, 2);
    assert(crate::export_layers::gathered(one, f) =~= seq![f(l)->0]);
}

/// When a layer is seen over a clip, in words.
pub open spec fn while_shown(t: Seq<char>, from: int, to: int) -> Seq<char> {
    "between("@ + t + ","@ + seconds_in_six_digits(from as nat) + ","@ + seconds_in_six_digits(
        to as nat,
    ) + ")"@
}

/// A time in words, from the start of a clip on: with a minus where it is before.
pub open spec fn since_start(c: ClipView, time: int) -> Seq<char> {
    if time < c.start {
        "-"@ + seconds_in_six_digits((c.start - time) as nat)
    } else {
        seconds_in_six_digits((time - c.start) as nat)
    }
}

/// A layer comes up from its start, for as long as its fade in, and goes down to its end, for as long
/// as its fade out; no fade is longer than the layer, and one of at most half a thousandth of a second
/// is none.
pub proof fn layer_fades_at_its_ends(c: ClipView, l: LayerEffectClipView, t: Seq<char>)
    requires
        time_fits(c.start),
        time_fits(l.start),
        time_fits(l.start + l.duration),
        0 <= l.duration,
        0 <= l.fade_in,
        0 <= l.fade_out,
    ensures
        ({
            let up = if l.fade_in < l.duration {
                l.fade_in
            } else {
                l.duration
            };
            fade_in_part(c, l, t) == if up <= 500_000 {
                "1"@
            } else {
                "clip(("@ + t + "-("@ + since_start(c, l.start) + "))/"@ + seconds_in_six_digits(
                    up as nat,
                ) + ",0,1)"@
            }
        }),
        ({
            let down = if l.fade_out < l.duration {
                l.fade_out
            } else {
                l.duration
            };
            fade_out_part(c, l, t) == if down <= 500_000 {
                "1"@
            } else {
                "clip((("@ + since_start(c, l.start + l.duration) + ")-"@ + t + ")/"@
                    + seconds_in_six_digits(down as nat) + ",0,1)"@
            }
        }),
{
}

proof fn lemma_one_layer(
    l: ExportLayerView,
    f: spec_fn(ExportLayerView) -> Option<Seq<char>>,
    x: Seq<char>,
)
    requires
        f(l) == Some(x),
    ensures
        crate::export_layers::gathered(seq![l], f) == seq![x],
        crate::export_layers::run_together(seq![l], f) == x,
{
    let one = seq![l];
    assert(one.drop_last() =~= seq![]);
    assert(one.last() == l);
    reveal_with_fuel(crate::export_layers::gathered, 2);
    reveal_with_fuel(crate::export_layers::run_together, 2);
    assert(crate::export_layers::gathered(one, f) =~= seq![x]);
    reveal_strlit("");
    assert(""@ + x =~= x);
}

/// One layer without a script makes the picture under it as opaque as it has come up and not yet gone
/// down, while it is shown, and leaves it alone otherwise.
pub proof fn one_layer_fades_the_picture(
    c: ClipView,
    l: ExportLayerView,
    t: Seq<char>,
    from: int,
    to: int,
)
    requires
        l.active_script() is None,
        overlap(c, l.clip) == Some((from, to)),
        time_fits(from),
        time_fits(to),
    ensures
        ({
            let shown = while_shown(t, from, to);
            let faded = "min("@ + fade_in_part(c, l.clip, t) + ", "@ + fade_out_part(c, l.clip, t)
                + ")"@;
            layer_opacity(c, seq![l], t) == Some(
                "clip(if(gte("@ + shown + ",0.5),("@ + ("("@ + shown + ")*("@ + faded + ")"@)
                    + ")*("@ + ("if(gte("@ + shown + ",0.5),"@ + "1"@ + ",1)"@) + "),1),0,1)"@,
            )
        }),
{
    let shown = while_shown(t, from, to);
    let faded = "min("@ + fade_in_part(c, l.clip, t) + ", "@ + fade_out_part(c, l.clip, t) + ")"@;
    let a = |x: ExportLayerView| crate::export_layers::active(c, x.clip, t);
    let s = |x: ExportLayerView| crate::export_layers::strength_term(c, x, t);
    let r = |x: ExportLayerView| crate::export_layers::transition_term(c, x, t);
    lemma_one_layer(l, a, shown);
    lemma_one_layer(l, s, "("@ + shown + ")*("@ + faded + ")"@);
    lemma_one_layer(l, r, "if(gte("@ + shown + ",0.5),"@ + "1"@ + ",1)"@);
}

/// One layer with adjustments changes the colours of the picture under it while it is shown: its
/// brightness is added, and contrast and saturation are multiplied by 1 and what it adds.
pub proof fn one_layer_changes_the_colors(
    look: LookView,
    c: ClipView,
    w: ClipWordsView,
    l: ExportLayerView,
    from: int,
    to: int,
)
    requires
        stands_still(c),
        look.layers == seq![l],
        !look.effects.changes_nothing(),
        look.color_mode == ExportColorMode::Fast,
        overlap(c, l.clip) == Some((from, to)),
        time_fits(from),
        time_fits(to),
    ensures
        ({
            let shown = "clip("@ + while_shown("t"@, from, to) + ",0,1)"@;
            let b = "clip(("@ + w.brightness + ")+("@ + look.adjust.brightness + ")*("@ + shown
                + "),-1,1)"@;
            let k = "clip(("@ + w.contrast + ")*(1+("@ + look.adjust.contrast_gain + ")*("@ + shown
                + ")),0,2)"@;
            let s = "clip(("@ + w.saturation + ")*(1+("@ + look.adjust.saturation_gain + ")*("@
                + shown + ")),0,2)"@;
            look.colors(c, w) == ",eq=brightness='"@ + b + "':contrast='"@ + k + "':saturation='"@
                + s + "'"@ + ":eval=frame"@
        }),
{
    one_layer_is_seen_while_it_lasts(c, l, "t"@);
}

/// One layer whose script blurs does so while it is shown, with the sigma that the script says, in
/// words.
pub proof fn script_blurs_while_its_layer_is_shown(
    c: ClipView,
    l: ExportLayerView,
    t: Seq<char>,
    from: int,
    to: int,
)
    requires
        overlap(c, l.clip) == Some((from, to)),
        time_fits(from),
        time_fits(to),
        l.clip.motionloom_enabled,
        l.script is Some,
        !l.script->0.plan.graph_duration_explicit,
    ensures
        ({
            let s = l.script->0;
            &&& s.plan.blur_sigma matches Some(n) ==> 0x3f50_624d_d2f1_a9fc < n.bits
                <= 0x7ff0_0000_0000_0000 ==> script_blur(c, seq![l], t) == ",gblur=sigma="@
                + s.words.blur + ":steps=1:enable='"@ + while_shown(t, from, to) + "'"@
            &&& s.plan.blur_sigma is None ==> script_blur(c, seq![l], t) == ""@
        }),
{
    let s = l.script->0;
    let f = |x: ExportLayerView| crate::export_layers::blur_term(c, x, t);
    let one = seq![l];
    if s.plan.blur_sigma is None {
        assert(one.drop_last() =~= seq![]);
        assert(one.last() == l);
        reveal_with_fuel(crate::export_layers::run_together, 2);
    } else if 0x3f50_624d_d2f1_a9fc < s.plan.blur_sigma->0.bits <= 0x7ff0_0000_0000_0000 {
        lemma_one_layer(
            l,
            f,
            ",gblur=sigma="@ + s.words.blur + ":steps=1:enable='"@ + while_shown(t, from, to)
                + "'"@,
        );
    }
}

} // verus!
