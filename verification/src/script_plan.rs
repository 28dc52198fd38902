//! What a layer's script asks of an export.
use crate::copying::{optional, views};
use crate::double::{
    Real, REAL_ONE, REAL_SIXTY_FOUR, REAL_THOUSANDTH, REAL_TWO, REAL_ZERO,
};
use crate::text::{chars_of, lowered, text_is, text_of, to_ascii_lowercase, trim, trimmed};
use crate::turns::{bring_within_turn, within_turn};
use vstd::prelude::*;

verus! {

broadcast use crate::copying::group_views;

/// The bit pattern of the usual length of a transition, six tenths of a second.
pub const USUAL_TRANSITION: u64 = 0x3fe3_3333_3333_3333;

/// The bit pattern of the shortest length of a transition, a ten thousandth.
pub const SHORTEST_TRANSITION: u64 = 0x3f1a_36e2_eb1c_432d;

/// Whether a script works on its layer's own time or on the time of its graph.
#[derive(Debug, Clone, Copy, PartialEq, Eq, Structural)]
pub enum GraphApplyScope {
    Clip,
    Graph,
}

/// Whether a pass takes part in a transition.
#[derive(Debug, Clone, Copy, PartialEq, Eq, Structural)]
pub enum PassTransitionMode {
    Auto,
    Off,
}

/// How a transition goes on over its time.
#[derive(Debug, Clone, Copy, PartialEq, Eq, Structural)]
pub enum PassTransitionEasing {
    Linear,
    EaseIn,
    EaseOut,
    EaseInOut,
}

/// What a transition does to the opacity.
#[derive(Debug, Clone, Copy, PartialEq, Eq, Structural)]
pub enum LayerTransitionEffect {
    FadeIn,
    FadeOut,
    Dip,
}

/// A parameter of a pass: its text, and the number that the text is, if it is one.
#[derive(Debug)]
pub struct PassParam {
    pub key: String,
    pub value: String,
    pub number: Option<Real>,
}

/// What a parameter says.
pub ghost struct PassParamView {
    pub key: Seq<char>,
    pub value: Seq<char>,
    pub number: Option<Real>,
}

impl View for PassParam {
    type V = PassParamView;

    open spec fn view(&self) -> PassParamView {
        PassParamView { key: self.key@, value: self.value@, number: self.number }
    }
}

/// A pass of a script.
#[derive(Debug)]
pub struct ScriptPass {
    /// The program that does it, if one is known.
    pub kernel: Option<String>,
    pub effect: String,
    pub transition: Option<PassTransitionMode>,
    pub transition_easing: Option<PassTransitionEasing>,
    pub params: Vec<PassParam>,
}

/// What a pass says.
pub ghost struct ScriptPassView {
    pub kernel: Option<Seq<char>>,
    pub effect: Seq<char>,
    pub transition: Option<PassTransitionMode>,
    pub transition_easing: Option<PassTransitionEasing>,
    pub params: Seq<PassParamView>,
}

impl View for ScriptPass {
    type V = ScriptPassView;

    open spec fn view(&self) -> ScriptPassView {
        ScriptPassView {
            kernel: optional(self.kernel),
            effect: self.effect@,
            transition: self.transition,
            transition_easing: self.transition_easing,
            params: views(self.params@),
        }
    }
}

/// A script that was read.
#[derive(Debug)]
pub struct ScriptGraph {
    pub apply: GraphApplyScope,
    pub duration_ms: u64,
    pub duration_explicit: bool,
    pub passes: Vec<ScriptPass>,
}

/// A transition that a script asks for.
#[derive(Debug, Clone, Copy, PartialEq, Eq, Structural)]
pub struct LayerTransitionPlan {
    pub effect: LayerTransitionEffect,
    pub mode: PassTransitionMode,
    pub easing: PassTransitionEasing,
    pub start_sec: Option<Real>,
    pub duration_sec: Real,
}

/// A colour that a script lays over the picture.
#[derive(Debug, Clone, Copy, PartialEq, Eq, Structural)]
pub struct LayerHslaOverlayPlan {
    /// In degrees, within a whole turn.
    pub hue: Real,
    pub saturation: Real,
    pub lightness: Real,
    pub alpha: Real,
}

/// What a script asks of an export.
#[derive(Debug)]
pub struct LayerScriptExportPlan {
    pub apply: GraphApplyScope,
    pub graph_duration_ms: u64,
    pub graph_duration_explicit: bool,
    pub transitions: Vec<LayerTransitionPlan>,
    pub blur_sigma: Option<Real>,
    pub sharpen_sigma: Option<Real>,
    pub lut_mix: Option<Real>,
    pub hsla_overlay: Option<LayerHslaOverlayPlan>,
    pub opacity_factor: Option<Real>,
}

/// What a plan says.
pub ghost struct PlanView {
    pub apply: GraphApplyScope,
    pub graph_duration_ms: u64,
    pub graph_duration_explicit: bool,
    pub transitions: Seq<LayerTransitionPlan>,
    pub blur_sigma: Option<Real>,
    pub sharpen_sigma: Option<Real>,
    pub lut_mix: Option<Real>,
    pub hsla_overlay: Option<LayerHslaOverlayPlan>,
    pub opacity_factor: Option<Real>,
}

impl View for LayerScriptExportPlan {
    type V = PlanView;

    open spec fn view(&self) -> PlanView {
        PlanView {
            apply: self.apply,
            graph_duration_ms: self.graph_duration_ms,
            graph_duration_explicit: self.graph_duration_explicit,
            transitions: self.transitions@,
            blur_sigma: self.blur_sigma,
            sharpen_sigma: self.sharpen_sigma,
            lut_mix: self.lut_mix,
            hsla_overlay: self.hsla_overlay,
            opacity_factor: self.opacity_factor,
        }
    }
}

// ---------------------------------------------------------------------------
// Texts
// ---------------------------------------------------------------------------

/// The text without quotation marks at its start.
pub open spec fn unquoted_start(text: Seq<char>) -> Seq<char>
    decreases text.len(),
{
    if text.len() > 0 && text[0] == '"' {
        unquoted_start(text.drop_first())
    } else {
        text
    }
}

/// The text without quotation marks at its end.
pub open spec fn unquoted_end(text: Seq<char>) -> Seq<char>
    decreases text.len(),
{
    if text.len() > 0 && text.last() == '"' {
        unquoted_end(text.drop_last())
    } else {
        text
    }
}

fn unquote(text: &str) -> (t: String)
    ensures
        t@ == unquoted_end(unquoted_start(text@)),
{
    let chars = chars_of(text);
    let mut from: usize = 0;
    assert(chars@.skip(0) =~= chars@);
    while from < chars.len() && chars[from] == '"'
        invariant
            from <= chars.len(),
            unquoted_start(chars@) == unquoted_start(chars@.skip(from as int)),
        decreases chars.len() - from,
    {
        assert(chars@.skip(from as int).drop_first() =~= chars@.skip(from + 1));
        from += 1;
    }
    let mut to: usize = chars.len();
    assert(chars@.subrange(from as int, to as int) =~= chars@.skip(from as int));
    assert(unquoted_start(chars@) == chars@.skip(from as int));
    while from < to && chars[to - 1] == '"'
        invariant
            from <= to <= chars.len(),
            unquoted_end(chars@.skip(from as int)) == unquoted_end(
                chars@.subrange(from as int, to as int),
            ),
        decreases to,
    {
        assert(chars@.subrange(from as int, to as int).drop_last() =~= chars@.subrange(
            from as int,
            to - 1,
        ));
        to -= 1;
    }
    assert(to > from ==> chars@.subrange(from as int, to as int).last() == chars@[to - 1]);
    text_of(&chars, from, to)
}

/// The text without white space and quotation marks around it.
pub open spec fn bare(text: Seq<char>) -> Seq<char> {
    trimmed(unquoted_end(unquoted_start(trimmed(text))))
}

/// The text without white space and quotation marks around it.
pub fn normalize_param_value(raw: &str) -> (text: String)
    ensures
        text@ == bare(raw@),
{
    trim(unquote(trim(raw).as_str()).as_str())
}

/// The text with underscores for hyphens.
pub open spec fn underscored(text: Seq<char>) -> Seq<char> {
    text.map_values(
        |c: char|
            if c == '-' {
                '_'
            } else {
                c
            },
    )
}

fn underscore(text: &str) -> (t: String)
    ensures
        t@ == underscored(text@),
{
    let chars = chars_of(text);
    let mut t = String::new();
    let mut i: usize = 0;
    while i < chars.len()
        invariant
            i <= chars.len(),
            t@ == underscored(chars@.take(i as int)),
        decreases chars.len() - i,
    {
        let c: char = if chars[i] == '-' {
            '_'
        } else {
            chars[i]
        };
        t.push(c);
        i += 1;
        assert(t@ =~= underscored(chars@.take(i as int)));
    }
    assert(chars@.take(i as int) =~= chars@);
    t
}

/// The name of an effect as it is compared.
pub open spec fn effect_name(text: Seq<char>) -> Seq<char> {
    lowered(bare(text))
}

fn to_effect_name(text: &str) -> (t: String)
    ensures
        t@ == effect_name(text@),
{
    to_ascii_lowercase(normalize_param_value(text).as_str())
}

/// What a transition of that name does.
pub open spec fn transition_effect(text: Seq<char>) -> Option<LayerTransitionEffect> {
    let name = underscored(effect_name(text));
    if name == "fade_in"@ {
        Some(LayerTransitionEffect::FadeIn)
    } else if name == "fade_out"@ {
        Some(LayerTransitionEffect::FadeOut)
    } else if name == "dip"@ || name == "dip_to_black"@ {
        Some(LayerTransitionEffect::Dip)
    } else {
        None
    }
}

/// What a transition of that name does.
pub fn parse_layer_transition_effect(text: &str) -> (effect: Option<LayerTransitionEffect>)
    ensures
        effect == transition_effect(text@),
{
    let name = underscore(to_effect_name(text).as_str());
    if text_is(name.as_str(), "fade_in") {
        Some(LayerTransitionEffect::FadeIn)
    } else if text_is(name.as_str(), "fade_out") {
        Some(LayerTransitionEffect::FadeOut)
    } else if text_is(name.as_str(), "dip") || text_is(name.as_str(), "dip_to_black") {
        Some(LayerTransitionEffect::Dip)
    } else {
        None
    }
}

/// The easing of that name.
pub open spec fn easing_named(text: Seq<char>) -> Option<PassTransitionEasing> {
    let name = effect_name(text);
    if name == "linear"@ {
        Some(PassTransitionEasing::Linear)
    } else if name == "ease-in"@ || name == "ease_in"@ {
        Some(PassTransitionEasing::EaseIn)
    } else if name == "ease-out"@ || name == "ease_out"@ {
        Some(PassTransitionEasing::EaseOut)
    } else if name == "ease-in-out"@ || name == "ease_in_out"@ {
        Some(PassTransitionEasing::EaseInOut)
    } else {
        None
    }
}

/// The easing of that name.
pub fn parse_transition_easing_text(text: &str) -> (easing: Option<PassTransitionEasing>)
    ensures
        easing == easing_named(text@),
{
    let name = to_effect_name(text);
    if text_is(name.as_str(), "linear") {
        Some(PassTransitionEasing::Linear)
    } else if text_is(name.as_str(), "ease-in") || text_is(name.as_str(), "ease_in") {
        Some(PassTransitionEasing::EaseIn)
    } else if text_is(name.as_str(), "ease-out") || text_is(name.as_str(), "ease_out") {
        Some(PassTransitionEasing::EaseOut)
    } else if text_is(name.as_str(), "ease-in-out") || text_is(name.as_str(), "ease_in_out") {
        Some(PassTransitionEasing::EaseInOut)
    } else {
        None
    }
}

// ---------------------------------------------------------------------------
// Parameters
// ---------------------------------------------------------------------------

impl ScriptPassView {
    /// The first parameter of that name.
    pub open spec fn param(self, key: Seq<char>) -> Option<PassParamView> {
        crate::lists::found(self.params, |p: PassParamView| p.key == key)
    }

    /// The number that the first parameter of that name is.
    pub open spec fn number(self, key: Seq<char>) -> Option<Real> {
        match self.param(key) {
            Some(p) => p.number,
            None => None,
        }
    }

    /// The number under the first of the names that has one.
    pub open spec fn number_of(self, keys: Seq<Seq<char>>) -> Option<Real>
        decreases keys.len(),
    {
        if keys.len() == 0 {
            None
        } else {
            match self.number(keys[0]) {
                Some(n) => Some(n),
                None => self.number_of(keys.drop_first()),
            }
        }
    }

    /// The easing of a transition: that of the parameter, else the pass's own.
    pub open spec fn easing(self) -> PassTransitionEasing {
        let named = match self.param("easing"@) {
            Some(p) => easing_named(p.value),
            None => None,
        };
        match (named, self.transition_easing) {
            (Some(e), _) => e,
            (None, Some(e)) => e,
            (None, None) => PassTransitionEasing::Linear,
        }
    }
}

/// The number, or another where there is none.
pub open spec fn number_or(n: Option<Real>, usual: u64) -> Real {
    match n {
        Some(r) => r,
        None => Real { bits: usual },
    }
}

fn or_usual(n: Option<Real>, usual: u64) -> (r: Real)
    ensures
        r == number_or(n, usual),
{
    match n {
        Some(r) => r,
        None => Real { bits: usual },
    }
}

/// The number, brought between 0 and 1.
pub open spec fn real_share(r: Real) -> Real {
    r.clamped(Real { bits: REAL_ZERO }, Real { bits: REAL_ONE })
}

fn to_real_share(r: Real) -> (s: Real)
    ensures
        s == real_share(r),
{
    r.clamp(Real { bits: REAL_ZERO }, Real { bits: REAL_ONE })
}

impl ScriptPass {
    fn find_param(&self, key: &str) -> (at: usize)
        ensures
            at <= self.params.len(),
            match self@.param(key@) {
                Some(p) => at < self.params.len() && self.params@[at as int]@ == p,
                None => at == self.params.len(),
            },
    {
        let ghost p = |p: PassParamView| p.key == key@;
        let mut i: usize = 0;
        while i < self.params.len()
            invariant
                i <= self.params.len(),
                p == (|p: PassParamView| p.key == key@),
                forall|j: int| 0 <= j < i ==> !p(#[trigger] views(self.params@)[j]),
            decreases self.params.len() - i,
        {
            if text_is(self.params[i].key.as_str(), key) {
                proof {
                    assert(p(views(self.params@)[i as int]));
                    crate::lists::lemma_first_is(views(self.params@), p, i as int);
                }
                return i;
            }
            assert(!p(views(self.params@)[i as int]));
            i += 1;
        }
        proof {
            crate::lists::lemma_first_is(views(self.params@), p, i as int);
        }
        i
    }

    /// The number that the first parameter of that name is.
    fn number(&self, key: &str) -> (n: Option<Real>)
        ensures
            n == self@.number(key@),
    {
        let at = self.find_param(key);
        if at < self.params.len() {
            self.params[at].number
        } else {
            None
        }
    }

    /// The number under the first of the names that has one.
    pub fn pass_param_real(&self, keys: &[&str]) -> (n: Option<Real>)
        ensures
            n == self@.number_of(views(keys@)),
    {
        let ghost names = views(keys@);
        let mut i: usize = 0;
        assert(names.skip(0) =~= names);
        while i < keys.len()
            invariant
                i <= keys.len(),
                names == views(keys@),
                self@.number_of(names) == self@.number_of(names.skip(i as int)),
            decreases keys.len() - i,
        {
            let n = self.number(keys[i]);
            assert(names.skip(i as int)[0] == keys@[i as int]@);
            assert(names.skip(i as int).drop_first() =~= names.skip(i + 1));
            if n.is_some() {
                return n;
            }
            i += 1;
        }
        None
    }

    fn find_easing(&self) -> (easing: PassTransitionEasing)
        ensures
            easing == self@.easing(),
    {
        let at = self.find_param("easing");
        let named = if at < self.params.len() {
            parse_transition_easing_text(self.params[at].value.as_str())
        } else {
            None
        };
        match (named, self.transition_easing) {
            (Some(e), _) => e,
            (None, Some(e)) => e,
            (None, None) => PassTransitionEasing::Linear,
        }
    }
}

// ---------------------------------------------------------------------------
// The plan
// ---------------------------------------------------------------------------

/// The larger of a number and one that came before, if one did.
pub open spec fn largest(before: Option<Real>, r: Real) -> Option<Real> {
    match before {
        Some(b) => Some(b.larger(r)),
        None => Some(r),
    }
}

/// The smaller of a number and one that came before, if one did.
pub open spec fn smallest(before: Option<Real>, r: Real) -> Option<Real> {
    match before {
        Some(b) => Some(b.smaller(r)),
        None => Some(r),
    }
}

fn to_largest(before: Option<Real>, r: Real) -> (l: Option<Real>)
    ensures
        l == largest(before, r),
{
    match before {
        Some(b) => Some(b.max(r)),
        None => Some(r),
    }
}

fn to_smallest(before: Option<Real>, r: Real) -> (l: Option<Real>)
    ensures
        l == smallest(before, r),
{
    match before {
        Some(b) => Some(b.min(r)),
        None => Some(r),
    }
}

impl PlanView {
    /// The plan with a transition.
    #[verifier::opaque]
    pub open spec fn with_transition(self, pass: ScriptPassView) -> PlanView {
        match transition_effect(pass.effect) {
            Some(effect) if pass.transition != Some(PassTransitionMode::Off) => PlanView {
                transitions: self.transitions.push(
                    LayerTransitionPlan {
                        effect,
                        mode: PassTransitionMode::Auto,
                        easing: pass.easing(),
                        start_sec: pass.number_of(seq!["startSec"@, "start_sec"@]),
                        duration_sec: number_or(
                            pass.number_of(seq!["durationSec"@, "duration_sec"@]),
                            USUAL_TRANSITION,
                        ).larger(Real { bits: SHORTEST_TRANSITION }),
                    },
                ),
                ..self
            },
            _ => self,
        }
    }

    /// The plan with a blur or a sharpening.
    #[verifier::opaque]
    pub open spec fn with_blur(self, pass: ScriptPassView) -> PlanView {
        let name = underscored(effect_name(pass.effect));
        let sigma = number_or(pass.number_of(seq!["sigma"@]), REAL_TWO).clamped(
            Real { bits: REAL_ZERO },
            Real { bits: REAL_SIXTY_FOUR },
        );
        if !(Real { bits: REAL_THOUSANDTH }).below(sigma) {
            self
        } else if name == "unsharp"@ || name == "sharpen"@ {
            PlanView { sharpen_sigma: largest(self.sharpen_sigma, sigma), ..self }
        } else {
            PlanView { blur_sigma: largest(self.blur_sigma, sigma), ..self }
        }
    }

    /// The plan with an opacity.
    #[verifier::opaque]
    pub open spec fn with_opacity(self, pass: ScriptPassView) -> PlanView {
        let name = effect_name(pass.effect);
        match pass.number_of(seq!["opacity"@]) {
            Some(n) if name == "opacity"@ || name == "composite.opacity"@ => PlanView {
                opacity_factor: smallest(self.opacity_factor, real_share(n)),
                ..self
            },
            _ => self,
        }
    }

    /// The plan with a change of the colours.
    #[verifier::opaque]
    pub open spec fn with_color(self, pass: ScriptPassView) -> PlanView {
        let name = underscored(effect_name(pass.effect));
        if name == "lut"@ || name == "color_tone.lut"@ {
            match pass.number_of(seq!["mix"@, "lutMix"@, "lut_mix"@]) {
                Some(mix) => PlanView { lut_mix: Some(real_share(mix)), ..self },
                None => self,
            }
        } else if name == "hsla_overlay"@ || name == "hsla"@ || name == "tint_overlay"@ || name
            == "color_tone.hsla_overlay"@ {
            PlanView {
                hsla_overlay: Some(
                    LayerHslaOverlayPlan {
                        hue: within_turn(
                            number_or(pass.number_of(seq!["hue"@, "h"@]), REAL_ZERO),
                        ),
                        saturation: real_share(
                            number_or(
                                pass.number_of(seq!["saturation"@, "sat"@, "s"@]),
                                REAL_ZERO,
                            ),
                        ),
                        lightness: real_share(
                            number_or(
                                pass.number_of(seq!["lightness"@, "lum"@, "l"@]),
                                REAL_ZERO,
                            ),
                        ),
                        alpha: real_share(
                            number_or(pass.number_of(seq!["alpha"@, "a"@]), REAL_ZERO),
                        ),
                    },
                ),
                ..self
            }
        } else {
            self
        }
    }

    /// The plan with one more pass, by the program that does it.
    pub open spec fn with_pass(self, pass: ScriptPassView) -> PlanView {
        match pass.kernel {
            None => self,
            Some(kernel) => if kernel == "transition_core.wgsl"@ {
                self.with_transition(pass)
            } else if kernel == "blur_sharpen_detail_gaussian.wgsl"@ || kernel
                == "blur_sharpen_detail_gaussian_5tap.wgsl"@ || kernel
                == "effect_for_testing_run.wgsl"@ {
                self.with_blur(pass)
            } else if kernel == "composite_core.wgsl"@ {
                self.with_opacity(pass)
            } else if kernel == "color_core.wgsl"@ {
                self.with_color(pass)
            } else {
                self
            },
        }
    }

    /// The plan with the passes, one after the other.
    pub open spec fn with_passes(self, passes: Seq<ScriptPassView>) -> PlanView
        decreases passes.len(),
    {
        if passes.len() == 0 {
            self
        } else {
            self.with_passes(passes.drop_last()).with_pass(passes.last())
        }
    }

    /// Whether the plan asks for anything.
    pub open spec fn asks(self) -> bool {
        self.transitions.len() > 0 || self.blur_sigma is Some || self.sharpen_sigma is Some
            || self.lut_mix is Some || self.hsla_overlay is Some || self.opacity_factor is Some
    }
}

/// A plan that asks for nothing.
pub open spec fn empty_plan(graph: ScriptGraph) -> PlanView {
    PlanView {
        apply: graph.apply,
        graph_duration_ms: graph.duration_ms,
        graph_duration_explicit: graph.duration_explicit,
        transitions: seq![],
        blur_sigma: None,
        sharpen_sigma: None,
        lut_mix: None,
        hsla_overlay: None,
        opacity_factor: None,
    }
}

impl LayerScriptExportPlan {
    fn take_transition(&mut self, pass: &ScriptPass)
        ensures
            final(self)@ == old(self)@.with_transition(pass@),
    {
        reveal(PlanView::with_transition);
        reveal(views);
        let effect = match parse_layer_transition_effect(pass.effect.as_str()) {
            Some(effect) => effect,
            None => {
                return;
            },
        };
        if matches!(pass.transition, Some(PassTransitionMode::Off)) {
            return;
        }
        let starts = ["startSec", "start_sec"];
        assert(views(starts@) =~= seq!["startSec"@, "start_sec"@]);
        let lengths = ["durationSec", "duration_sec"];
        assert(views(lengths@) =~= seq!["durationSec"@, "duration_sec"@]);
        let duration_sec = or_usual(pass.pass_param_real(&lengths), USUAL_TRANSITION).max(
            Real { bits: SHORTEST_TRANSITION },
        );
        self.transitions.push(
            LayerTransitionPlan {
                effect,
                mode: PassTransitionMode::Auto,
                easing: pass.find_easing(),
                start_sec: pass.pass_param_real(&starts),
                duration_sec,
            },
        );
    }

    fn take_blur(&mut self, pass: &ScriptPass)
        ensures
            final(self)@ == old(self)@.with_blur(pass@),
    {
        reveal(PlanView::with_blur);
        reveal(views);
        let name = underscore(to_effect_name(pass.effect.as_str()).as_str());
        let keys = ["sigma"];
        assert(views(keys@) =~= seq!["sigma"@]);
        let sigma = or_usual(pass.pass_param_real(&keys), REAL_TWO).clamp(
            Real { bits: REAL_ZERO },
            Real { bits: REAL_SIXTY_FOUR },
        );
        let least_seen = Real { bits: REAL_THOUSANDTH };
        if !least_seen.lt(sigma) {
            return;
        }
        if text_is(name.as_str(), "unsharp") || text_is(name.as_str(), "sharpen") {
            self.sharpen_sigma = to_largest(self.sharpen_sigma, sigma);
        } else {
            self.blur_sigma = to_largest(self.blur_sigma, sigma);
        }
    }

    fn take_opacity(&mut self, pass: &ScriptPass)
        ensures
            final(self)@ == old(self)@.with_opacity(pass@),
    {
        reveal(PlanView::with_opacity);
        reveal(views);
        let name = to_effect_name(pass.effect.as_str());
        let keys = ["opacity"];
        assert(views(keys@) =~= seq!["opacity"@]);
        if text_is(name.as_str(), "opacity") || text_is(name.as_str(), "composite.opacity") {
            if let Some(n) = pass.pass_param_real(&keys) {
                self.opacity_factor = to_smallest(self.opacity_factor, to_real_share(n));
            }
        }
    }

    fn take_color(&mut self, pass: &ScriptPass)
        ensures
            final(self)@ == old(self)@.with_color(pass@),
    {
        reveal(PlanView::with_color);
        reveal(views);
        let name = underscore(to_effect_name(pass.effect.as_str()).as_str());
        if text_is(name.as_str(), "lut") || text_is(name.as_str(), "color_tone.lut") {
            let keys = ["mix", "lutMix", "lut_mix"];
            assert(views(keys@) =~= seq!["mix"@, "lutMix"@, "lut_mix"@]);
            if let Some(mix) = pass.pass_param_real(&keys) {
                self.lut_mix = Some(to_real_share(mix));
            }
            return;
        }
        if text_is(name.as_str(), "hsla_overlay") || text_is(name.as_str(), "hsla") || text_is(
            name.as_str(),
            "tint_overlay",
        ) || text_is(name.as_str(), "color_tone.hsla_overlay") {
            let hues = ["hue", "h"];
            assert(views(hues@) =~= seq!["hue"@, "h"@]);
            let saturations = ["saturation", "sat", "s"];
            assert(views(saturations@) =~= seq!["saturation"@, "sat"@, "s"@]);
            let lights = ["lightness", "lum", "l"];
            assert(views(lights@) =~= seq!["lightness"@, "lum"@, "l"@]);
            let alphas = ["alpha", "a"];
            assert(views(alphas@) =~= seq!["alpha"@, "a"@]);
            self.hsla_overlay =
            Some(
                LayerHslaOverlayPlan {
                    hue: bring_within_turn(or_usual(pass.pass_param_real(&hues), REAL_ZERO)),
                    saturation: to_real_share(
                        or_usual(pass.pass_param_real(&saturations), REAL_ZERO),
                    ),
                    lightness: to_real_share(or_usual(pass.pass_param_real(&lights), REAL_ZERO)),
                    alpha: to_real_share(or_usual(pass.pass_param_real(&alphas), REAL_ZERO)),
                },
            );
        }
    }

    fn take_pass(&mut self, pass: &ScriptPass)
        ensures
            final(self)@ == old(self)@.with_pass(pass@),
    {
        let kernel = match &pass.kernel {
            Some(kernel) => kernel.as_str(),
            None => {
                return;
            },
        };
        if text_is(kernel, "transition_core.wgsl") {
            self.take_transition(pass);
        } else if text_is(kernel, "blur_sharpen_detail_gaussian.wgsl") || text_is(
            kernel,
            "blur_sharpen_detail_gaussian_5tap.wgsl",
        ) || text_is(kernel, "effect_for_testing_run.wgsl") {
            self.take_blur(pass);
        } else if text_is(kernel, "composite_core.wgsl") {
            self.take_opacity(pass);
        } else if text_is(kernel, "color_core.wgsl") {
            self.take_color(pass);
        }
    }

    fn asks_for_something(&self) -> (yes: bool)
        ensures
            yes == self@.asks(),
    {
        self.transitions.len() > 0 || self.blur_sigma.is_some() || self.sharpen_sigma.is_some()
            || self.lut_mix.is_some() || self.hsla_overlay.is_some()
            || self.opacity_factor.is_some()
    }
}

/// What a script that was read asks of an export; nothing where it asks for nothing.
pub fn analyze_motionloom_script_for_export(graph: &ScriptGraph) -> (plan: Option<
    LayerScriptExportPlan,
>)
    ensures
        ({
            let all = empty_plan(*graph).with_passes(views(graph.passes@));
            match plan {
                Some(p) => p@ == all && all.asks(),
                None => !all.asks(),
            }
        }),
{
    let mut plan = LayerScriptExportPlan {
        apply: graph.apply,
        graph_duration_ms: graph.duration_ms,
        graph_duration_explicit: graph.duration_explicit,
        transitions: Vec::new(),
        blur_sigma: None,
        sharpen_sigma: None,
        lut_mix: None,
        hsla_overlay: None,
        opacity_factor: None,
    };
    let ghost passes = views(graph.passes@);
    let mut i: usize = 0;
    assert(passes.take(0) =~= seq![]);
    assert(plan@.transitions =~= seq![]);
    while i < graph.passes.len()
        invariant
            i <= graph.passes.len(),
            passes == views(graph.passes@),
            plan@ == empty_plan(*graph).with_passes(passes.take(i as int)),
        decreases graph.passes.len() - i,
    {
        plan.take_pass(&graph.passes[i]);
        assert(passes.take(i + 1).drop_last() =~= passes.take(i as int));
        assert(passes.take(i + 1).last() == graph.passes@[i as int]@);
        i += 1;
    }
    assert(passes.take(i as int) =~= passes);
    if plan.asks_for_something() {
        Some(plan)
    } else {
        None
    }
}

/// Whether a number is between 0 and 1. What is no number passes, since nothing brings it there.
pub open spec fn is_share(r: Real) -> bool {
    r.nan() || 0 <= r.key() <= REAL_ONE
}

/// Numbers that a plan holds are in their ranges: a blur is seen and at most 64, shares are
/// between 0 and 1, no transition is switched off, and none is shorter than the shortest.
pub proof fn plan_is_in_range(graph: ScriptGraph, passes: Seq<ScriptPassView>)
    ensures
        ({
            let plan = empty_plan(graph).with_passes(passes);
            &&& seen_blur(plan.blur_sigma)
            &&& seen_blur(plan.sharpen_sigma)
            &&& plan.opacity_factor matches Some(factor) ==> is_share(factor)
            &&& plan.lut_mix matches Some(mix) ==> is_share(mix)
            &&& plan.hsla_overlay matches Some(colour) ==> is_share(colour.saturation) && is_share(
                colour.lightness,
            ) && is_share(colour.alpha)
            &&& forall|i: int|
                0 <= i < plan.transitions.len() ==> {
                    let t = #[trigger] plan.transitions[i];
                    t.mode is Auto && !t.duration_sec.nan() && t.duration_sec.key()
                        >= SHORTEST_TRANSITION
                }
        }),
    decreases passes.len(),
{
    reveal(PlanView::with_transition);
    reveal(PlanView::with_blur);
    reveal(PlanView::with_opacity);
    reveal(PlanView::with_color);
    if passes.len() > 0 {
        plan_is_in_range(graph, passes.drop_last());
    }
}

/// Whether a blur, if there is one, is large enough to be seen and at most 64.
pub open spec fn seen_blur(sigma: Option<Real>) -> bool {
    match sigma {
        Some(s) => (Real { bits: REAL_THOUSANDTH }).below(s) && s.key() <= REAL_SIXTY_FOUR,
        None => true,
    }
}

} // verus!
