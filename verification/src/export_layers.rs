//! What layer effects add to the filters of a clip.
use crate::clip::{Clip, ClipView};
use crate::copying::{optional, views};
use crate::double::{Real, REAL_SEVEN, REAL_THOUSANDTH};
use crate::export_settings::push_text;
use crate::filter_words::{
    between, between_text, fixed, fixed_text, max_all, max_all_text, min_all, min_all_text, min_of,
    min_of_text, number_text, product, product_text, share_of, share_of_text, signed, signed_text,
};
use crate::layer::{LayerEffectClip, LayerEffectClipView};
use crate::script_plan::{
    GraphApplyScope, LayerScriptExportPlan, LayerTransitionEffect, LayerTransitionPlan,
    PassTransitionEasing, PassTransitionMode, PlanView,
};
use crate::text::{decimal, owned};
use crate::time::{greatest, least, Duration, MAX_NANOS};
use vstd::prelude::*;

verus! {

broadcast use crate::copying::group_views;

/// When a transition starts and how long it is, in words.
#[derive(Debug)]
pub struct SpanWords {
    pub start: String,
    pub duration: String,
}

/// What a span says.
pub ghost struct SpanWordsView {
    pub start: Seq<char>,
    pub duration: Seq<char>,
}

impl View for SpanWords {
    type V = SpanWordsView;

    open spec fn view(&self) -> SpanWordsView {
        SpanWordsView { start: self.start@, duration: self.duration@ }
    }
}

/// How a picture is sharpened: by a square, or in two directions for a strong
/// sharpening.
#[derive(Debug)]
pub struct SharpenWords {
    /// Twice the strength, rounded.
    pub size: u32,
    /// How strong the sharpening is among the strong ones, from 0 to 5.
    pub step: u32,
    pub amount: String,
    pub strong_amount: String,
}

/// How a picture is sharpened.
pub ghost struct SharpenWordsView {
    pub size: int,
    pub step: int,
    pub amount: Seq<char>,
    pub strong_amount: Seq<char>,
}

impl View for SharpenWords {
    type V = SharpenWordsView;

    open spec fn view(&self) -> SharpenWordsView {
        SharpenWordsView {
            size: self.size as int,
            step: self.step as int,
            amount: self.amount@,
            strong_amount: self.strong_amount@,
        }
    }
}

/// The numbers of a plan, in words.
#[derive(Debug)]
pub struct ScriptWords {
    pub opacity_factor: String,
    /// One for each transition.
    pub transitions: Vec<SpanWords>,
    pub blur: String,
    pub sharpen: SharpenWords,
    pub lut_mix: String,
    pub overlay_alpha: String,
    pub overlay_red: String,
    pub overlay_green: String,
    pub overlay_blue: String,
}

/// The numbers of a plan, in words.
pub ghost struct ScriptWordsView {
    pub opacity_factor: Seq<char>,
    pub transitions: Seq<SpanWordsView>,
    pub blur: Seq<char>,
    pub sharpen: SharpenWordsView,
    pub lut_mix: Seq<char>,
    pub overlay_alpha: Seq<char>,
    pub overlay_red: Seq<char>,
    pub overlay_green: Seq<char>,
    pub overlay_blue: Seq<char>,
}

impl View for ScriptWords {
    type V = ScriptWordsView;

    open spec fn view(&self) -> ScriptWordsView {
        ScriptWordsView {
            opacity_factor: self.opacity_factor@,
            transitions: views(self.transitions@),
            blur: self.blur@,
            sharpen: self.sharpen@,
            lut_mix: self.lut_mix@,
            overlay_alpha: self.overlay_alpha@,
            overlay_red: self.overlay_red@,
            overlay_green: self.overlay_green@,
            overlay_blue: self.overlay_blue@,
        }
    }
}

/// The shortest length of a script's graph: a ten thousandth of a second.
pub const SHORTEST_GRAPH: u128 = 100_000;

/// How long the graph of a script is, in words.
pub open spec fn graph_length(plan: PlanView) -> Seq<char> {
    fixed(greatest(plan.graph_duration_ms * 1_000_000, SHORTEST_GRAPH as int))
}

fn graph_length_text(plan: &LayerScriptExportPlan) -> (text: String)
    ensures
        text@ == graph_length(plan@),
{
    let length = Duration::from_millis(plan.graph_duration_ms);
    fixed_text(length.max(Duration { nanos: SHORTEST_GRAPH }))
}

/// The plan of a script with its numbers in words.
#[derive(Debug)]
pub struct LayerScript {
    pub plan: LayerScriptExportPlan,
    pub words: ScriptWords,
}

/// The plan of a script with its numbers in words.
pub ghost struct LayerScriptView {
    pub plan: PlanView,
    pub words: ScriptWordsView,
}

impl View for LayerScript {
    type V = LayerScriptView;

    open spec fn view(&self) -> LayerScriptView {
        LayerScriptView { plan: self.plan@, words: self.words@ }
    }
}

/// A layer effect with what its script asks for.
#[derive(Debug)]
pub struct ExportLayer {
    pub clip: LayerEffectClip,
    pub script: Option<LayerScript>,
}

/// A layer effect with what its script asks for.
pub ghost struct ExportLayerView {
    pub clip: LayerEffectClipView,
    pub script: Option<LayerScriptView>,
}

impl View for ExportLayer {
    type V = ExportLayerView;

    open spec fn view(&self) -> ExportLayerView {
        ExportLayerView { clip: self.clip@, script: optional(self.script) }
    }
}

impl ExportLayerView {
    /// The script, if it is switched on.
    pub open spec fn active_script(self) -> Option<LayerScriptView> {
        if self.clip.motionloom_enabled {
            self.script
        } else {
            None
        }
    }
}

impl ExportLayer {
    /// The script, if it is switched on.
    pub fn script_in_use(&self) -> (script: Option<&LayerScript>)
        ensures
            match (script, self@.active_script()) {
                (Some(s), Some(v)) => s@ == v,
                (None, None) => true,
                _ => false,
            },
    {
        if self.clip.motionloom_enabled {
            match &self.script {
                Some(s) => Some(s),
                None => None,
            }
        } else {
            None
        }
    }
}

/// What is added where a layer and a clip are shown together; at most half a
/// thousandth of a second together counts as nothing.
pub const SHORTEST_OVERLAP: u128 = 500_000;

/// When a layer is shown over a clip, in the clip's own time.
#[verifier::opaque]
pub open spec fn overlap(c: ClipView, l: LayerEffectClipView) -> Option<(int, int)> {
    let start = greatest(c.start, l.start);
    let end = least(
        least(c.start + c.duration, MAX_NANOS as int),
        least(l.start + l.duration, MAX_NANOS as int),
    );
    if c.duration <= 0 || l.duration <= 0 || end <= start || end - start <= SHORTEST_OVERLAP {
        None
    } else {
        Some((start - c.start, end - c.start))
    }
}

fn find_overlap(c: &Clip, l: &LayerEffectClip) -> (both: Option<(Duration, Duration)>)
    ensures
        match (both, overlap(c@, l@)) {
            (Some((a, b)), Some((x, y))) => a@ == x && b@ == y,
            (None, None) => true,
            _ => false,
        },
{
    reveal(overlap);
    if c.duration.nanos == 0 || l.duration.nanos == 0 {
        return None;
    }
    let start = c.start.max(l.start);
    let end = c.start.saturating_add(c.duration).min(l.start.saturating_add(l.duration));
    if end.nanos <= start.nanos || end.saturating_sub(start).nanos <= SHORTEST_OVERLAP {
        return None;
    }
    Some((start.saturating_sub(c.start), end.saturating_sub(c.start)))
}

/// An overlap lies within the clip, and is longer than the shortest.
pub proof fn overlap_is_within(c: ClipView, l: LayerEffectClipView)
    requires
        c.start >= 0,
        l.start >= 0,
    ensures
        overlap(c, l) matches Some((from, to)) ==> 0 <= from && to <= c.duration && to - from
            > SHORTEST_OVERLAP,
{
    reveal(overlap);
}

/// How far a fade has come in.
pub open spec fn fade_in_expr(t: Seq<char>, start: Seq<char>, length: Seq<char>) -> Seq<char> {
    "clip(("@
        + t
        + "-("@
        + start
        + "))/"@
        + length
        + ",0,1)"@
}

pub fn fade_in_expr_text(t: &str, start: &str, length: &str) -> (text: String)
    ensures
        text@ == fade_in_expr(t@, start@, length@),
{
    let mut text = owned("clip((");
    text.append(t);
    text.append("-(");
    text.append(start);
    text.append("))/");
    text.append(length);
    text.append(",0,1)");
    text
}

/// How far a fade has yet to go out.
pub open spec fn fade_out_expr(t: Seq<char>, end: Seq<char>, length: Seq<char>) -> Seq<char> {
    "clip((("@
        + end
        + ")-"@
        + t
        + ")/"@
        + length
        + ",0,1)"@
}

pub fn fade_out_expr_text(t: &str, end: &str, length: &str) -> (text: String)
    ensures
        text@ == fade_out_expr(t@, end@, length@),
{
    let mut text = owned("clip(((");
    text.append(end);
    text.append(")-");
    text.append(t);
    text.append(")/");
    text.append(length);
    text.append(",0,1)");
    text
}

/// The smaller of two.
pub open spec fn tight_min(a: Seq<char>, b: Seq<char>) -> Seq<char> {
    "min("@
        + a
        + ","@
        + b
        + ")"@
}

pub fn tight_min_text(a: &str, b: &str) -> (text: String)
    ensures
        text@ == tight_min(a@, b@),
{
    let mut text = owned("min(");
    text.append(a);
    text.append(",");
    text.append(b);
    text.append(")");
    text
}

/// How far the layer has faded in.
pub open spec fn fade_in_part(c: ClipView, l: LayerEffectClipView, t: Seq<char>) -> Seq<char> {
    let length = least(l.fade_in, l.duration);
    if length > SHORTEST_OVERLAP {
        fade_in_expr(t, signed(l.start, c.start), fixed(length))
    } else {
        "1"@
    }
}

/// How far the layer has yet to fade out.
pub open spec fn fade_out_part(c: ClipView, l: LayerEffectClipView, t: Seq<char>) -> Seq<char> {
    let length = least(l.fade_out, l.duration);
    if length > SHORTEST_OVERLAP {
        fade_out_expr(
            t,
            signed(least(l.start + l.duration, MAX_NANOS as int), c.start),
            fixed(length),
        )
    } else {
        "1"@
    }
}

fn fade_in_words(c: &Clip, l: &LayerEffectClip, t: &str) -> (text: String)
    ensures
        text@ == fade_in_part(c@, l@, t@),
{
    let length = l.fade_in.min(l.duration);
    if length.nanos > SHORTEST_OVERLAP {
        fade_in_expr_text(
            t,
            signed_text(l.start, c.start).as_str(),
            fixed_text(length).as_str(),
        )
    } else {
        owned("1")
    }
}

fn fade_out_words(c: &Clip, l: &LayerEffectClip, t: &str) -> (text: String)
    ensures
        text@ == fade_out_part(c@, l@, t@),
{
    let length = l.fade_out.min(l.duration);
    if length.nanos > SHORTEST_OVERLAP {
        fade_out_expr_text(
            t,
            signed_text(l.start.saturating_add(l.duration), c.start).as_str(),
            fixed_text(length).as_str(),
        )
    } else {
        owned("1")
    }
}

/// How strong the layer is at a time.
pub open spec fn envelope(c: ClipView, l: LayerEffectClipView, t: Seq<char>) -> Seq<char> {
    min_of(fade_in_part(c, l, t), fade_out_part(c, l, t))
}

fn envelope_text(c: &Clip, l: &LayerEffectClip, t: &str) -> (text: String)
    ensures
        text@ == envelope(c@, l@, t@),
{
    min_of_text(fade_in_words(c, l, t).as_str(), fade_out_words(c, l, t).as_str())
}

/// Something, times something in brackets.
pub open spec fn times(a: Seq<char>, b: Seq<char>) -> Seq<char> {
    a
        + "*("@
        + b
        + ")"@
}

pub fn times_text(a: &str, b: &str) -> (text: String)
    ensures
        text@ == times(a@, b@),
{
    let mut text = owned(a);
    text.append("*(");
    text.append(b);
    text.append(")");
    text
}

/// When the layer is shown over the clip.
pub open spec fn active(c: ClipView, l: LayerEffectClipView, t: Seq<char>) -> Option<Seq<char>> {
    match overlap(c, l) {
        Some((from, to)) => Some(between(t, fixed(from), fixed(to))),
        None => None,
    }
}

fn active_text(c: &Clip, l: &LayerEffectClip, t: &str) -> (text: Option<String>)
    ensures
        optional(text) == active(c@, l@, t@),
{
    match find_overlap(c, l) {
        Some((from, to)) => Some(
            between_text(t, fixed_text(from).as_str(), fixed_text(to).as_str()),
        ),
        None => None,
    }
}

/// When, and how strongly if that is asked for, the layer is shown over the clip.
pub open spec fn gate_piece(
    c: ClipView,
    l: LayerEffectClipView,
    t: Seq<char>,
    with_envelope: bool,
) -> Option<Seq<char>> {
    match active(c, l, t) {
        Some(a) => Some(
            if with_envelope {
                times(a, tight_min(fade_in_part(c, l, t), fade_out_part(c, l, t)))
            } else {
                a
            },
        ),
        None => None,
    }
}

/// What the layers add, for those that add anything.
pub open spec fn gathered(
    layers: Seq<ExportLayerView>,
    f: spec_fn(ExportLayerView) -> Option<Seq<char>>,
) -> Seq<Seq<char>>
    decreases layers.len(),
{
    if layers.len() == 0 {
        seq![]
    } else {
        let front = gathered(layers.drop_last(), f);
        match f(layers.last()) {
            Some(x) => front.push(x),
            None => front,
        }
    }
}

/// What the layers add, one behind the other.
pub open spec fn run_together(
    layers: Seq<ExportLayerView>,
    f: spec_fn(ExportLayerView) -> Option<Seq<char>>,
) -> Seq<char>
    decreases layers.len(),
{
    if layers.len() == 0 {
        ""@
    } else {
        let front = run_together(layers.drop_last(), f);
        match f(layers.last()) {
            Some(x) => front + x,
            None => front,
        }
    }
}

proof fn lemma_gather_step(
    layers: Seq<ExportLayerView>,
    i: int,
    f: spec_fn(ExportLayerView) -> Option<Seq<char>>,
)
    requires
        0 <= i < layers.len(),
    ensures
        gathered(layers.take(i + 1), f) == match f(layers[i]) {
            Some(x) => gathered(layers.take(i), f).push(x),
            None => gathered(layers.take(i), f),
        },
        run_together(layers.take(i + 1), f) == match f(layers[i]) {
            Some(x) => run_together(layers.take(i), f) + x,
            None => run_together(layers.take(i), f),
        },
{
    assert(layers.take(i + 1).drop_last() =~= layers.take(i));
    assert(layers.take(i + 1).last() == layers[i]);
}

/// When a layer is shown over the clip at all, if one is.
pub open spec fn layer_gate(
    c: ClipView,
    layers: Seq<ExportLayerView>,
    t: Seq<char>,
    with_envelope: bool,
) -> Option<Seq<char>> {
    let pieces = gathered(layers, |l: ExportLayerView| gate_piece(c, l.clip, t, with_envelope));
    if pieces.len() == 0 {
        None
    } else {
        Some(share_of(max_all(pieces)))
    }
}

/// When a layer is shown over the clip at all, if one is.
pub fn build_layer_gate_expr_for_clip(
    c: &Clip,
    layers: &Vec<ExportLayer>,
    t: &str,
    with_envelope: bool,
) -> (gate: Option<String>)
    ensures
        optional(gate) == layer_gate(c@, views(layers@), t@, with_envelope),
{
    let ghost f = |l: ExportLayerView| gate_piece(c@, l.clip, t@, with_envelope);
    let ghost all = views(layers@);
    let mut pieces: Vec<String> = Vec::new();
    let mut i: usize = 0;
    assert(views(pieces@) =~= gathered(all.take(0), f));
    while i < layers.len()
        invariant
            i <= layers.len(),
            all == views(layers@),
            f == (|l: ExportLayerView| gate_piece(c@, l.clip, t@, with_envelope)),
            views(pieces@) == gathered(all.take(i as int), f),
        decreases layers.len() - i,
    {
        let l = &layers[i].clip;
        proof {
            lemma_gather_step(all, i as int, f);
        }
        if let Some(a) = active_text(c, l, t) {
            if with_envelope {
                let strength = tight_min_text(
                    fade_in_words(c, l, t).as_str(),
                    fade_out_words(c, l, t).as_str(),
                );
                push_text(&mut pieces, times_text(a.as_str(), strength.as_str()).as_str());
            } else {
                push_text(&mut pieces, a.as_str());
            }
        }
        i += 1;
    }
    assert(all.take(i as int) =~= all);
    if pieces.len() == 0 {
        None
    } else {
        Some(share_of_text(max_all_text(&pieces).as_str()))
    }
}

// ---------------------------------------------------------------------------
// Opacity
// ---------------------------------------------------------------------------

/// A change at the same pace.
pub open spec fn ease_linear(p: Seq<char>) -> Seq<char> {
    "("@
        + p
        + ")"@
}

pub fn ease_linear_text(p: &str) -> (text: String)
    ensures
        text@ == ease_linear(p@),
{
    let mut text = owned("(");
    text.append(p);
    text.append(")");
    text
}

/// A change that starts slowly.
pub open spec fn ease_in(p: Seq<char>) -> Seq<char> {
    "(("@
        + p
        + ")*("@
        + p
        + "))"@
}

pub fn ease_in_text(p: &str) -> (text: String)
    ensures
        text@ == ease_in(p@),
{
    let mut text = owned("((");
    text.append(p);
    text.append(")*(");
    text.append(p);
    text.append("))");
    text
}

/// A change that ends slowly.
pub open spec fn ease_out(p: Seq<char>) -> Seq<char> {
    "1-((1-("@
        + p
        + "))*(1-("@
        + p
        + ")))"@
}

pub fn ease_out_text(p: &str) -> (text: String)
    ensures
        text@ == ease_out(p@),
{
    let mut text = owned("1-((1-(");
    text.append(p);
    text.append("))*(1-(");
    text.append(p);
    text.append(")))");
    text
}

/// A change that starts and ends slowly.
pub open spec fn ease_in_out(p: Seq<char>) -> Seq<char> {
    "if(lt("@
        + p
        + ",0.5),2*("@
        + p
        + ")*("@
        + p
        + "),1-(pow((-2*("@
        + p
        + ")+2),2)/2))"@
}

pub fn ease_in_out_text(p: &str) -> (text: String)
    ensures
        text@ == ease_in_out(p@),
{
    let mut text = owned("if(lt(");
    text.append(p);
    text.append(",0.5),2*(");
    text.append(p);
    text.append(")*(");
    text.append(p);
    text.append("),1-(pow((-2*(");
    text.append(p);
    text.append(")+2),2)/2))");
    text
}

/// A change that goes on as the easing says.
pub open spec fn eased(p: Seq<char>, easing: PassTransitionEasing) -> Seq<char> {
    match easing {
        PassTransitionEasing::Linear => ease_linear(p),
        PassTransitionEasing::EaseIn => ease_in(p),
        PassTransitionEasing::EaseOut => ease_out(p),
        PassTransitionEasing::EaseInOut => ease_in_out(p),
    }
}

/// A change that goes on as the easing says.
pub fn build_transition_easing_expr(p: &str, easing: PassTransitionEasing) -> (text: String)
    ensures
        text@ == eased(p@, easing),
{
    match easing {
        PassTransitionEasing::Linear => ease_linear_text(p),
        PassTransitionEasing::EaseIn => ease_in_text(p),
        PassTransitionEasing::EaseOut => ease_out_text(p),
        PassTransitionEasing::EaseInOut => ease_in_out_text(p),
    }
}

/// How far a transition has come.
pub open spec fn progress(local: Seq<char>, start: Seq<char>, length: Seq<char>) -> Seq<char> {
    "clip((("@
        + local
        + ")-("@
        + start
        + "))/"@
        + length
        + ",0,1)"@
}

pub fn progress_text(local: &str, start: &str, length: &str) -> (text: String)
    ensures
        text@ == progress(local@, start@, length@),
{
    let mut text = owned("clip(((");
    text.append(local);
    text.append(")-(");
    text.append(start);
    text.append("))/");
    text.append(length);
    text.append(",0,1)");
    text
}

/// Something in brackets.
pub open spec fn in_brackets(x: Seq<char>) -> Seq<char> {
    "("@
        + x
        + ")"@
}

pub fn in_brackets_text(x: &str) -> (text: String)
    ensures
        text@ == in_brackets(x@),
{
    let mut text = owned("(");
    text.append(x);
    text.append(")");
    text
}

/// What is left of 1.
pub open spec fn one_minus(x: Seq<char>) -> Seq<char> {
    "1-("@
        + x
        + ")"@
}

pub fn one_minus_text(x: &str) -> (text: String)
    ensures
        text@ == one_minus(x@),
{
    let mut text = owned("1-(");
    text.append(x);
    text.append(")");
    text
}

/// Full at both ends and nothing in the middle.
pub open spec fn dipped(x: Seq<char>) -> Seq<char> {
    "abs((2*("@
        + x
        + "))-1)"@
}

pub fn dipped_text(x: &str) -> (text: String)
    ensures
        text@ == dipped(x@),
{
    let mut text = owned("abs((2*(");
    text.append(x);
    text.append("))-1)");
    text
}

/// What a transition does to the opacity.
pub open spec fn transition_opacity(
    plan: LayerTransitionPlan,
    words: SpanWordsView,
    local: Seq<char>,
) -> Seq<char> {
    let x = eased(progress(local, words.start, words.duration), plan.easing);
    match plan.effect {
        LayerTransitionEffect::FadeIn => in_brackets(x),
        LayerTransitionEffect::FadeOut => one_minus(x),
        LayerTransitionEffect::Dip => dipped(x),
    }
}

fn transition_opacity_text(plan: LayerTransitionPlan, words: &SpanWords, local: &str) -> (text:
    String)
    ensures
        text@ == transition_opacity(plan, words@, local@),
{
    let p = progress_text(local, words.start.as_str(), words.duration.as_str());
    let x = build_transition_easing_expr(p.as_str(), plan.easing);
    match plan.effect {
        LayerTransitionEffect::FadeIn => in_brackets_text(x.as_str()),
        LayerTransitionEffect::FadeOut => one_minus_text(x.as_str()),
        LayerTransitionEffect::Dip => dipped_text(x.as_str()),
    }
}

/// What the transitions up to an index do to the opacity; those that are switched off
/// do nothing.
pub open spec fn transitions_opacity(
    plans: Seq<LayerTransitionPlan>,
    words: Seq<SpanWordsView>,
    n: int,
    local: Seq<char>,
) -> Option<Seq<char>>
    decreases n,
{
    if n <= 0 {
        None
    } else {
        let before = transitions_opacity(plans, words, n - 1, local);
        if plans[n - 1].mode is Off {
            before
        } else {
            let x = transition_opacity(plans[n - 1], words[n - 1], local);
            match before {
                Some(b) => Some(min_of(b, x)),
                None => Some(x),
            }
        }
    }
}

impl LayerScriptView {
    /// Whether each transition has its words.
    pub open spec fn told(self) -> bool {
        self.words.transitions.len() == self.plan.transitions.len()
    }

    /// What the transitions do to the opacity.
    pub open spec fn transition_expr(self, local: Seq<char>) -> Option<Seq<char>> {
        transitions_opacity(
            self.plan.transitions,
            self.words.transitions,
            self.plan.transitions.len() as int,
            local,
        )
    }

    /// Whether the script works on the time of its graph alone.
    pub open spec fn is_bounded(self) -> bool {
        self.plan.apply is Graph && self.plan.graph_duration_explicit
    }

    /// What the script does to the opacity, while it works.
    pub open spec fn opacity_terms(self, local: Seq<char>) -> Option<Seq<char>> {
        match (self.transition_expr(local), self.plan.opacity_factor) {
            (Some(x), Some(_)) => Some(min_of(x, self.words.opacity_factor)),
            (Some(x), None) => Some(x),
            (None, Some(_)) => Some(self.words.opacity_factor),
            (None, None) => None,
        }
    }

    /// What the script does to the opacity, if it does anything.
    pub open spec fn opacity_expr(self, local: Seq<char>) -> Option<Seq<char>> {
        match self.opacity_terms(local) {
            Some(x) => Some(
                if self.is_bounded() {
                    while_graph(local, graph_length(self.plan), x)
                } else {
                    x
                },
            ),
            None => None,
        }
    }
}

/// Something in the time of a graph and 1 outside it.
pub open spec fn while_graph(local: Seq<char>, length: Seq<char>, x: Seq<char>) -> Seq<char> {
    "if(between("@
        + local
        + ",0,"@
        + length
        + "),"@
        + x
        + ",1)"@
}

pub fn while_graph_text(local: &str, length: &str, x: &str) -> (text: String)
    ensures
        text@ == while_graph(local@, length@, x@),
{
    let mut text = owned("if(between(");
    text.append(local);
    text.append(",0,");
    text.append(length);
    text.append("),");
    text.append(x);
    text.append(",1)");
    text
}

/// The time since a start.
pub open spec fn after(t: Seq<char>, start: Seq<char>) -> Seq<char> {
    "("@
        + t
        + "-("@
        + start
        + "))"@
}

pub fn after_text(t: &str, start: &str) -> (text: String)
    ensures
        text@ == after(t@, start@),
{
    let mut text = owned("(");
    text.append(t);
    text.append("-(");
    text.append(start);
    text.append("))");
    text
}

impl LayerScript {
    /// What the transitions do to the opacity.
    pub fn build_layer_transition_expr_from_plan(&self, local: &str) -> (text: Option<String>)
        requires
            self@.told(),
        ensures
            optional(text) == self@.transition_expr(local@),
    {
        let n: usize = self.plan.transitions.len();
        let mut text: Option<String> = None;
        let mut i: usize = 0;
        while i < n
            invariant
                i <= n,
                n == self.plan.transitions.len(),
                n == self.words.transitions.len(),
                optional(text) == transitions_opacity(
                    self@.plan.transitions,
                    self@.words.transitions,
                    i as int,
                    local@,
                ),
            decreases n - i,
        {
            let plan = self.plan.transitions[i];
            if !matches!(plan.mode, PassTransitionMode::Off) {
                let x = transition_opacity_text(plan, &self.words.transitions[i], local);
                text = match text {
                    Some(b) => Some(min_of_text(b.as_str(), x.as_str())),
                    None => Some(x),
                };
            }
            i += 1;
        }
        text
    }

    fn is_graph_bounded(&self) -> (yes: bool)
        ensures
            yes == self@.is_bounded(),
    {
        matches!(self.plan.apply, GraphApplyScope::Graph) && self.plan.graph_duration_explicit
    }

    fn opacity_words(&self, local: &str) -> (text: Option<String>)
        requires
            self@.told(),
        ensures
            optional(text) == self@.opacity_expr(local@),
    {
        let terms = match (
            self.build_layer_transition_expr_from_plan(local),
            self.plan.opacity_factor,
        ) {
            (Some(x), Some(_)) => min_of_text(x.as_str(), self.words.opacity_factor.as_str()),
            (Some(x), None) => x,
            (None, Some(_)) => owned(self.words.opacity_factor.as_str()),
            (None, None) => {
                return None;
            },
        };
        if self.is_graph_bounded() {
            Some(while_graph_text(local, graph_length_text(&self.plan).as_str(), terms.as_str()))
        } else {
            Some(terms)
        }
    }
}

/// The layer's own time.
pub open spec fn local_time(c: ClipView, l: LayerEffectClipView, t: Seq<char>) -> Seq<char> {
    after(t, signed(l.start, c.start))
}

fn local_time_text(c: &Clip, l: &LayerEffectClip, t: &str) -> (text: String)
    ensures
        text@ == local_time(c@, l@, t@),
{
    after_text(t, signed_text(l.start, c.start).as_str())
}

/// How strong the layer is while it is shown.
pub open spec fn strength_term(c: ClipView, l: ExportLayerView, t: Seq<char>) -> Option<Seq<char>> {
    match active(c, l.clip, t) {
        Some(a) => Some(product(a, envelope(c, l.clip, t))),
        None => None,
    }
}

/// What the layer's script does to the opacity while it is shown.
pub open spec fn transition_term(c: ClipView, l: ExportLayerView, t: Seq<char>) -> Option<
    Seq<char>,
> {
    match active(c, l.clip, t) {
        Some(a) => Some(
            if_active(
                a,
                match l.active_script() {
                    Some(s) => match s.opacity_expr(local_time(c, l.clip, t)) {
                        Some(x) => x,
                        None => "1"@,
                    },
                    None => "1"@,
                },
            ),
        ),
        None => None,
    }
}

/// Something while a layer is shown, and 1 otherwise.
pub open spec fn if_active(a: Seq<char>, x: Seq<char>) -> Seq<char> {
    "if(gte("@
        + a
        + ",0.5),"@
        + x
        + ",1)"@
}

pub fn if_active_text(a: &str, x: &str) -> (text: String)
    ensures
        text@ == if_active(a@, x@),
{
    let mut text = owned("if(gte(");
    text.append(a);
    text.append(",0.5),");
    text.append(x);
    text.append(",1)");
    text
}

/// What the layers together do to the opacity.
pub open spec fn factor_of(any: Seq<char>, strength: Seq<char>, transition: Seq<char>) -> Seq<char> {
    "clip(if(gte("@
        + any
        + ",0.5),("@
        + strength
        + ")*("@
        + transition
        + "),1),0,1)"@
}

pub fn factor_of_text(any: &str, strength: &str, transition: &str) -> (text: String)
    ensures
        text@ == factor_of(any@, strength@, transition@),
{
    let mut text = owned("clip(if(gte(");
    text.append(any);
    text.append(",0.5),(");
    text.append(strength);
    text.append(")*(");
    text.append(transition);
    text.append("),1),0,1)");
    text
}

fn transition_word(c: &Clip, l: &ExportLayer, t: &str) -> (text: String)
    requires
        l@.active_script() matches Some(s) ==> s.told(),
    ensures
        text@ == match l@.active_script() {
            Some(s) => match s.opacity_expr(local_time(c@, l@.clip, t@)) {
                Some(x) => x,
                None => "1"@,
            },
            None => "1"@,
        },
{
    match l.script_in_use() {
        Some(s) => match s.opacity_words(local_time_text(c, &l.clip, t).as_str()) {
            Some(x) => x,
            None => owned("1"),
        },
        None => owned("1"),
    }
}

/// Whether each transition of the layers' scripts has its words.
pub open spec fn scripts_told(layers: Seq<ExportLayerView>) -> bool {
    forall|i: int|
        0 <= i < layers.len() ==> ((#[trigger] layers[i]).active_script() matches Some(s)
            ==> s.told())
}

/// What the layers do to the clip's opacity, if one is shown over it.
pub open spec fn layer_opacity(c: ClipView, layers: Seq<ExportLayerView>, t: Seq<char>) -> Option<
    Seq<char>,
> {
    let actives = gathered(layers, |l: ExportLayerView| active(c, l.clip, t));
    if actives.len() == 0 {
        None
    } else {
        Some(
            factor_of(
                max_all(actives),
                max_all(gathered(layers, |l: ExportLayerView| strength_term(c, l, t))),
                min_all(gathered(layers, |l: ExportLayerView| transition_term(c, l, t))),
            ),
        )
    }
}

/// What the layers do to the clip's opacity, if one is shown over it.
pub fn build_layer_opacity_factor_expr_for_clip(
    c: &Clip,
    layers: &Vec<ExportLayer>,
    t: &str,
) -> (factor: Option<String>)
    requires
        scripts_told(views(layers@)),
    ensures
        optional(factor) == layer_opacity(c@, views(layers@), t@),
{
    let ghost f = |l: ExportLayerView| active(c@, l.clip, t@);
    let ghost g = |l: ExportLayerView| strength_term(c@, l, t@);
    let ghost h = |l: ExportLayerView| transition_term(c@, l, t@);
    let ghost all = views(layers@);
    let mut actives: Vec<String> = Vec::new();
    let mut strengths: Vec<String> = Vec::new();
    let mut transitions: Vec<String> = Vec::new();
    let mut i: usize = 0;
    assert(views(actives@) =~= gathered(all.take(0), f));
    assert(views(strengths@) =~= gathered(all.take(0), g));
    assert(views(transitions@) =~= gathered(all.take(0), h));
    while i < layers.len()
        invariant
            i <= layers.len(),
            all == views(layers@),
            scripts_told(all),
            f == (|l: ExportLayerView| active(c@, l.clip, t@)),
            g == (|l: ExportLayerView| strength_term(c@, l, t@)),
            h == (|l: ExportLayerView| transition_term(c@, l, t@)),
            views(actives@) == gathered(all.take(i as int), f),
            views(strengths@) == gathered(all.take(i as int), g),
            views(transitions@) == gathered(all.take(i as int), h),
            actives.len() == strengths.len() == transitions.len(),
        decreases layers.len() - i,
    {
        let l = &layers[i];
        assert(all[i as int] == l@);
        proof {
            lemma_gather_step(all, i as int, f);
            lemma_gather_step(all, i as int, g);
            lemma_gather_step(all, i as int, h);
        }
        if let Some(a) = active_text(c, &l.clip, t) {
            let strength = product_text(a.as_str(), envelope_text(c, &l.clip, t).as_str());
            let transition = if_active_text(a.as_str(), transition_word(c, l, t).as_str());
            push_text(&mut actives, a.as_str());
            push_text(&mut strengths, strength.as_str());
            push_text(&mut transitions, transition.as_str());
        }
        i += 1;
    }
    assert(all.take(i as int) =~= all);
    if actives.len() == 0 {
        return None;
    }
    Some(
        factor_of_text(
            max_all_text(&actives).as_str(),
            max_all_text(&strengths).as_str(),
            min_all_text(&transitions).as_str(),
        ),
    )
}

// ---------------------------------------------------------------------------
// Filters of scripts
// ---------------------------------------------------------------------------

/// When a layer is shown, within the time of its graph.
pub open spec fn bounded_enable(enable: Seq<char>, local: Seq<char>, length: Seq<char>) -> Seq<char> {
    "("@
        + enable
        + ")*between("@
        + local
        + ",0,"@
        + length
        + ")"@
}

pub fn bounded_enable_text(enable: &str, local: &str, length: &str) -> (text: String)
    ensures
        text@ == bounded_enable(enable@, local@, length@),
{
    let mut text = owned("(");
    text.append(enable);
    text.append(")*between(");
    text.append(local);
    text.append(",0,");
    text.append(length);
    text.append(")");
    text
}

/// The time of a graph.
pub open spec fn graph_gate(local: Seq<char>, length: Seq<char>) -> Seq<char> {
    "between("@
        + local
        + ",0,"@
        + length
        + ")"@
}

pub fn graph_gate_text(local: &str, length: &str) -> (text: String)
    ensures
        text@ == graph_gate(local@, length@),
{
    let mut text = owned("between(");
    text.append(local);
    text.append(",0,");
    text.append(length);
    text.append(")");
    text
}

/// A blur for some time.
pub open spec fn timed_blur(sigma: Seq<char>, enable: Seq<char>) -> Seq<char> {
    ",gblur=sigma="@
        + sigma
        + ":steps=1:enable='"@
        + enable
        + "'"@
}

pub fn timed_blur_text(sigma: &str, enable: &str) -> (text: String)
    ensures
        text@ == timed_blur(sigma@, enable@),
{
    let mut text = owned(",gblur=sigma=");
    text.append(sigma);
    text.append(":steps=1:enable='");
    text.append(enable);
    text.append("'");
    text
}

/// The product of four.
pub open spec fn four_product(a: Seq<char>, b: Seq<char>, c: Seq<char>, d: Seq<char>) -> Seq<char> {
    "("@
        + a
        + ")*("@
        + b
        + ")*("@
        + c
        + ")*("@
        + d
        + ")"@
}

pub fn four_product_text(a: &str, b: &str, c: &str, d: &str) -> (text: String)
    ensures
        text@ == four_product(a@, b@, c@, d@),
{
    let mut text = owned("(");
    text.append(a);
    text.append(")*(");
    text.append(b);
    text.append(")*(");
    text.append(c);
    text.append(")*(");
    text.append(d);
    text.append(")");
    text
}

/// A sharpening for some time.
pub open spec fn sharpen_filter(x: Seq<char>, y: Seq<char>, amount: Seq<char>, enable: Seq<char>) -> Seq<char> {
    ",unsharp=luma_msize_x="@
        + x
        + ":luma_msize_y="@
        + y
        + ":luma_amount="@
        + amount
        + ":chroma_msize_x="@
        + x
        + ":chroma_msize_y="@
        + y
        + ":chroma_amount=0.0000:enable='"@
        + enable
        + "'"@
}

pub fn sharpen_filter_text(x: &str, y: &str, amount: &str, enable: &str) -> (text: String)
    ensures
        text@ == sharpen_filter(x@, y@, amount@, enable@),
{
    let mut text = owned(",unsharp=luma_msize_x=");
    text.append(x);
    text.append(":luma_msize_y=");
    text.append(y);
    text.append(":luma_amount=");
    text.append(amount);
    text.append(":chroma_msize_x=");
    text.append(x);
    text.append(":chroma_msize_y=");
    text.append(y);
    text.append(":chroma_amount=0.0000:enable='");
    text.append(enable);
    text.append("'");
    text
}

/// A warmer picture.
pub open spec fn lut_filter(m: Seq<char>) -> Seq<char> {
    ",geq=r='clip(r(X,Y)*(1+(0.03*("@
        + m
        + "))),0,255)':g='g(X,Y)':b='clip(b(X,Y)*(1-(0.03*("@
        + m
        + "))),0,255)':a='alpha(X,Y)'"@
}

pub fn lut_filter_text(m: &str) -> (text: String)
    ensures
        text@ == lut_filter(m@),
{
    let mut text = owned(",geq=r='clip(r(X,Y)*(1+(0.03*(");
    text.append(m);
    text.append("))),0,255)':g='g(X,Y)':b='clip(b(X,Y)*(1-(0.03*(");
    text.append(m);
    text.append("))),0,255)':a='alpha(X,Y)'");
    text
}

/// A colour over the picture.
pub open spec fn overlay_filter(a: Seq<char>, r: Seq<char>, g: Seq<char>, b: Seq<char>) -> Seq<char> {
    ",geq=r='clip(r(X,Y)*(1-("@
        + a
        + "))+("@
        + r
        + ")*("@
        + a
        + "),0,255)':g='clip(g(X,Y)*(1-("@
        + a
        + "))+("@
        + g
        + ")*("@
        + a
        + "),0,255)':b='clip(b(X,Y)*(1-("@
        + a
        + "))+("@
        + b
        + ")*("@
        + a
        + "),0,255)':a='alpha(X,Y)'"@
}

pub fn overlay_filter_text(a: &str, r: &str, g: &str, b: &str) -> (text: String)
    ensures
        text@ == overlay_filter(a@, r@, g@, b@),
{
    let mut text = owned(",geq=r='clip(r(X,Y)*(1-(");
    text.append(a);
    text.append("))+(");
    text.append(r);
    text.append(")*(");
    text.append(a);
    text.append("),0,255)':g='clip(g(X,Y)*(1-(");
    text.append(a);
    text.append("))+(");
    text.append(g);
    text.append(")*(");
    text.append(a);
    text.append("),0,255)':b='clip(b(X,Y)*(1-(");
    text.append(a);
    text.append("))+(");
    text.append(b);
    text.append(")*(");
    text.append(a);
    text.append("),0,255)':a='alpha(X,Y)'");
    text
}

/// When a script works on the clip.
pub open spec fn script_enable(
    c: ClipView,
    l: LayerEffectClipView,
    s: LayerScriptView,
    t: Seq<char>,
) -> Option<Seq<char>> {
    match active(c, l, t) {
        Some(a) => Some(
            if s.is_bounded() {
                bounded_enable(a, local_time(c, l, t), graph_length(s.plan))
            } else {
                a
            },
        ),
        None => None,
    }
}

fn script_enable_text(c: &Clip, l: &LayerEffectClip, s: &LayerScript, t: &str) -> (text: Option<
    String,
>)
    ensures
        optional(text) == script_enable(c@, l@, s@, t@),
{
    match active_text(c, l, t) {
        Some(a) => if s.is_graph_bounded() {
            Some(
                bounded_enable_text(
                    a.as_str(),
                    local_time_text(c, l, t).as_str(),
                    graph_length_text(&s.plan).as_str(),
                ),
            )
        } else {
            Some(a)
        },
        None => None,
    }
}

/// Whether a strength, if there is one, is not too small to be seen.
pub open spec fn is_seen(n: Option<Real>) -> bool {
    match n {
        Some(r) => r.nan() || r.key() > REAL_THOUSANDTH,
        None => false,
    }
}

fn seen(n: Option<Real>) -> (yes: bool)
    ensures
        yes == is_seen(n),
{
    let least_seen = Real { bits: REAL_THOUSANDTH };
    match n {
        Some(r) => r.is_nan() || least_seen.lt(r),
        None => false,
    }
}

/// The blur of a layer's script.
pub open spec fn blur_term(c: ClipView, l: ExportLayerView, t: Seq<char>) -> Option<Seq<char>> {
    match l.active_script() {
        Some(s) if is_seen(s.plan.blur_sigma) => match script_enable(c, l.clip, s, t) {
            Some(e) => Some(timed_blur(s.words.blur, e)),
            None => None,
        },
        _ => None,
    }
}

fn blur_word(c: &Clip, l: &ExportLayer, t: &str) -> (text: Option<String>)
    ensures
        optional(text) == blur_term(c@, l@, t@),
{
    match l.script_in_use() {
        Some(s) => if seen(s.plan.blur_sigma) {
            match script_enable_text(c, &l.clip, s, t) {
                Some(e) => Some(timed_blur_text(s.words.blur.as_str(), e.as_str())),
                None => None,
            }
        } else {
            None
        },
        None => None,
    }
}

/// The side of the square by which a picture is sharpened: odd, and from 3 to 13.
pub open spec fn kernel_side(size: int) -> int {
    let k = if size < 3 {
        3
    } else if size > 13 {
        13
    } else {
        size
    };
    if k % 2 == 0 {
        k + 1
    } else {
        k
    }
}

/// The sides by which a picture is sharpened strongly.
pub open spec fn kernel_pair(step: int) -> (int, int) {
    let s = if step > 5 {
        5
    } else {
        step
    };
    (13 + 2 * s, 13 - 2 * s)
}

/// The sides fit what the filter takes: both are odd and from 3 to 23, and half of each,
/// rounded down, make at most 12 together.
pub proof fn kernels_fit_filter(size: int, step: int)
    requires
        0 <= step,
    ensures
        ({
            let k = kernel_side(size);
            let (x, y) = kernel_pair(step);
            &&& k % 2 == 1 && 3 <= k <= 13
            &&& x % 2 == 1 && y % 2 == 1
            &&& 3 <= y <= 13 <= x <= 23
            &&& k / 2 + k / 2 <= 12
            &&& x / 2 + y / 2 <= 12
        }),
{
}

/// The sharpening of a picture.
pub open spec fn sharpening(words: SharpenWordsView, sigma: Real, enable: Seq<char>) -> Seq<char> {
    if !sigma.nan() && sigma.key() >= REAL_SEVEN {
        let (x, y) = kernel_pair(words.step);
        if words.step == 0 {
            sharpen_filter("13"@, "13"@, words.strong_amount, enable)
        } else {
            sharpen_filter(decimal(x), decimal(y), words.strong_amount, enable) + sharpen_filter(
                decimal(y),
                decimal(x),
                words.strong_amount,
                enable,
            )
        }
    } else {
        let k = kernel_side(words.size);
        sharpen_filter(decimal(k), decimal(k), words.amount, enable)
    }
}

fn sharpening_text(words: &SharpenWords, sigma: Real, enable: &str) -> (text: String)
    ensures
        text@ == sharpening(words@, sigma, enable@),
{
    let strong = Real { bits: REAL_SEVEN };
    if !sigma.is_nan() && !sigma.lt(strong) {
        if words.step == 0 {
            return sharpen_filter_text("13", "13", words.strong_amount.as_str(), enable);
        }
        let s: usize = if words.step > 5 {
            5
        } else {
            words.step as usize
        };
        let x = number_text(13 + 2 * s);
        let y = number_text(13 - 2 * s);
        let mut text = sharpen_filter_text(
            x.as_str(),
            y.as_str(),
            words.strong_amount.as_str(),
            enable,
        );
        text.append(
            sharpen_filter_text(
                y.as_str(),
                x.as_str(),
                words.strong_amount.as_str(),
                enable,
            ).as_str(),
        );
        return text;
    }
    let bounded: usize = if words.size < 3 {
        3
    } else if words.size > 13 {
        13
    } else {
        words.size as usize
    };
    let side: usize = if bounded % 2 == 0 {
        bounded + 1
    } else {
        bounded
    };
    let k = number_text(side);
    sharpen_filter_text(k.as_str(), k.as_str(), words.amount.as_str(), enable)
}

/// The sharpening of a layer's script.
pub open spec fn sharpen_term(c: ClipView, l: ExportLayerView, t: Seq<char>) -> Option<Seq<char>> {
    match l.active_script() {
        Some(s) if is_seen(s.plan.sharpen_sigma) => match script_enable(c, l.clip, s, t) {
            Some(e) => Some(sharpening(s.words.sharpen, s.plan.sharpen_sigma->0, e)),
            None => None,
        },
        _ => None,
    }
}

fn sharpen_word(c: &Clip, l: &ExportLayer, t: &str) -> (text: Option<String>)
    ensures
        optional(text) == sharpen_term(c@, l@, t@),
{
    match l.script_in_use() {
        Some(s) => if seen(s.plan.sharpen_sigma) {
            match (script_enable_text(c, &l.clip, s, t), s.plan.sharpen_sigma) {
                (Some(e), Some(sigma)) => Some(
                    sharpening_text(&s.words.sharpen, sigma, e.as_str()),
                ),
                _ => None,
            }
        } else {
            None
        },
        None => None,
    }
}

/// The time in which a script works, as a factor.
pub open spec fn graph_factor(
    c: ClipView,
    l: LayerEffectClipView,
    s: LayerScriptView,
    t: Seq<char>,
) -> Seq<char> {
    if s.is_bounded() {
        graph_gate(local_time(c, l, t), graph_length(s.plan))
    } else {
        "1"@
    }
}

fn graph_factor_text(c: &Clip, l: &LayerEffectClip, s: &LayerScript, t: &str) -> (text: String)
    ensures
        text@ == graph_factor(c@, l@, s@, t@),
{
    if s.is_graph_bounded() {
        graph_gate_text(local_time_text(c, l, t).as_str(), graph_length_text(&s.plan).as_str())
    } else {
        owned("1")
    }
}

/// How strong something of a layer's script is.
pub open spec fn script_strength(
    c: ClipView,
    l: LayerEffectClipView,
    s: LayerScriptView,
    t: Seq<char>,
    amount: Seq<char>,
) -> Option<Seq<char>> {
    match active(c, l, t) {
        Some(a) => Some(four_product(amount, a, envelope(c, l, t), graph_factor(c, l, s, t))),
        None => None,
    }
}

fn script_strength_text(
    c: &Clip,
    l: &LayerEffectClip,
    s: &LayerScript,
    t: &str,
    amount: &str,
) -> (text: Option<String>)
    ensures
        optional(text) == script_strength(c@, l@, s@, t@, amount@),
{
    match active_text(c, l, t) {
        Some(a) => Some(
            four_product_text(
                amount,
                a.as_str(),
                envelope_text(c, l, t).as_str(),
                graph_factor_text(c, l, s, t).as_str(),
            ),
        ),
        None => None,
    }
}

/// The mix of a layer's script.
pub open spec fn mix_term(c: ClipView, l: ExportLayerView, t: Seq<char>) -> Option<Seq<char>> {
    match l.active_script() {
        Some(s) if is_seen(s.plan.lut_mix) => script_strength(c, l.clip, s, t, s.words.lut_mix),
        _ => None,
    }
}

fn mix_word(c: &Clip, l: &ExportLayer, t: &str) -> (text: Option<String>)
    ensures
        optional(text) == mix_term(c@, l@, t@),
{
    match l.script_in_use() {
        Some(s) => if seen(s.plan.lut_mix) {
            script_strength_text(c, &l.clip, s, t, s.words.lut_mix.as_str())
        } else {
            None
        },
        None => None,
    }
}

/// The colour that a layer's script lays over the clip.
pub open spec fn overlay_term(c: ClipView, l: ExportLayerView, t: Seq<char>) -> Option<Seq<char>> {
    match l.active_script() {
        Some(s) => match s.plan.hsla_overlay {
            Some(o) if is_seen(Some(o.alpha)) => match script_strength(
                c,
                l.clip,
                s,
                t,
                s.words.overlay_alpha,
            ) {
                Some(x) => Some(
                    overlay_filter(
                        share_of(x),
                        s.words.overlay_red,
                        s.words.overlay_green,
                        s.words.overlay_blue,
                    ),
                ),
                None => None,
            },
            _ => None,
        },
        None => None,
    }
}

fn overlay_word(c: &Clip, l: &ExportLayer, t: &str) -> (text: Option<String>)
    ensures
        optional(text) == overlay_term(c@, l@, t@),
{
    let s = match l.script_in_use() {
        Some(s) => s,
        None => {
            return None;
        },
    };
    match s.plan.hsla_overlay {
        Some(o) => if seen(Some(o.alpha)) {
            match script_strength_text(c, &l.clip, s, t, s.words.overlay_alpha.as_str()) {
                Some(x) => Some(
                    overlay_filter_text(
                        share_of_text(x.as_str()).as_str(),
                        s.words.overlay_red.as_str(),
                        s.words.overlay_green.as_str(),
                        s.words.overlay_blue.as_str(),
                    ),
                ),
                None => None,
            }
        } else {
            None
        },
        None => None,
    }
}

/// The blurs that scripts lay over the clip.
pub open spec fn script_blur(c: ClipView, layers: Seq<ExportLayerView>, t: Seq<char>) -> Seq<char> {
    run_together(layers, |l: ExportLayerView| blur_term(c, l, t))
}

/// The blurs that scripts lay over the clip.
pub fn build_motionloom_blur_filter_for_clip(c: &Clip, layers: &Vec<ExportLayer>, t: &str) -> (text: String)
    ensures
        text@ == script_blur(c@, views(layers@), t@),
{
    let ghost f = |l: ExportLayerView| blur_term(c@, l, t@);
    let ghost all = views(layers@);
    let mut text = owned("");
    let mut i: usize = 0;
    assert(text@ == run_together(all.take(0), f));
    while i < layers.len()
        invariant
            i <= layers.len(),
            all == views(layers@),
            f == (|l: ExportLayerView| blur_term(c@, l, t@)),
            text@ == run_together(all.take(i as int), f),
        decreases layers.len() - i,
    {
        proof {
            lemma_gather_step(all, i as int, f);
        }
        if let Some(x) = blur_word(c, &layers[i], t) {
            text.append(x.as_str());
        }
        i += 1;
    }
    assert(all.take(i as int) =~= all);
    text
}

/// The sharpening by scripts of the clip.
pub open spec fn script_sharpening(c: ClipView, layers: Seq<ExportLayerView>, t: Seq<char>) -> Seq<char> {
    run_together(layers, |l: ExportLayerView| sharpen_term(c, l, t))
}

/// The sharpening by scripts of the clip.
pub fn build_motionloom_sharpen_filter_for_clip(c: &Clip, layers: &Vec<ExportLayer>, t: &str) -> (text: String)
    ensures
        text@ == script_sharpening(c@, views(layers@), t@),
{
    let ghost f = |l: ExportLayerView| sharpen_term(c@, l, t@);
    let ghost all = views(layers@);
    let mut text = owned("");
    let mut i: usize = 0;
    assert(text@ == run_together(all.take(0), f));
    while i < layers.len()
        invariant
            i <= layers.len(),
            all == views(layers@),
            f == (|l: ExportLayerView| sharpen_term(c@, l, t@)),
            text@ == run_together(all.take(i as int), f),
        decreases layers.len() - i,
    {
        proof {
            lemma_gather_step(all, i as int, f);
        }
        if let Some(x) = sharpen_word(c, &layers[i], t) {
            text.append(x.as_str());
        }
        i += 1;
    }
    assert(all.take(i as int) =~= all);
    text
}

/// The colours that scripts lay over the clip.
pub open spec fn script_overlay(c: ClipView, layers: Seq<ExportLayerView>, t: Seq<char>) -> Seq<char> {
    run_together(layers, |l: ExportLayerView| overlay_term(c, l, t))
}

/// The colours that scripts lay over the clip.
pub fn build_motionloom_hsla_filter_for_clip(c: &Clip, layers: &Vec<ExportLayer>, t: &str) -> (text: String)
    ensures
        text@ == script_overlay(c@, views(layers@), t@),
{
    let ghost f = |l: ExportLayerView| overlay_term(c@, l, t@);
    let ghost all = views(layers@);
    let mut text = owned("");
    let mut i: usize = 0;
    assert(text@ == run_together(all.take(0), f));
    while i < layers.len()
        invariant
            i <= layers.len(),
            all == views(layers@),
            f == (|l: ExportLayerView| overlay_term(c@, l, t@)),
            text@ == run_together(all.take(i as int), f),
        decreases layers.len() - i,
    {
        proof {
            lemma_gather_step(all, i as int, f);
        }
        if let Some(x) = overlay_word(c, &layers[i], t) {
            text.append(x.as_str());
        }
        i += 1;
    }
    assert(all.take(i as int) =~= all);
    text
}

/// The change of colours by scripts of the clip.
pub open spec fn script_lut(c: ClipView, layers: Seq<ExportLayerView>, t: Seq<char>) -> Seq<char> {
    let terms = gathered(layers, |l: ExportLayerView| mix_term(c, l, t));
    if terms.len() == 0 {
        ""@
    } else {
        lut_filter(share_of(max_all(terms)))
    }
}

/// The change of colours by scripts of the clip.
pub fn build_motionloom_lut_filter_for_clip(c: &Clip, layers: &Vec<ExportLayer>, t: &str) -> (text:
    String)
    ensures
        text@ == script_lut(c@, views(layers@), t@),
{
    let ghost f = |l: ExportLayerView| mix_term(c@, l, t@);
    let ghost all = views(layers@);
    let mut terms: Vec<String> = Vec::new();
    let mut i: usize = 0;
    assert(views(terms@) =~= gathered(all.take(0), f));
    while i < layers.len()
        invariant
            i <= layers.len(),
            all == views(layers@),
            f == (|l: ExportLayerView| mix_term(c@, l, t@)),
            views(terms@) == gathered(all.take(i as int), f),
        decreases layers.len() - i,
    {
        proof {
            lemma_gather_step(all, i as int, f);
        }
        if let Some(x) = mix_word(c, &layers[i], t) {
            push_text(&mut terms, x.as_str());
        }
        i += 1;
    }
    assert(all.take(i as int) =~= all);
    if terms.len() == 0 {
        owned("")
    } else {
        lut_filter_text(share_of_text(max_all_text(&terms).as_str()).as_str())
    }
}

} // verus!
