//! Edits of layer effects.
use crate::clip_effects::SIXTY_FOUR;
use crate::copying::{copy_list, optional, views};
use crate::effect::{ScalarKeyframe, MINUS_ONE, ONE, TWO, ZERO};
use crate::export_clip::time_sum;
use crate::keyframes::{
    index_at, key_place, keys_with, sample_linear, sampled, set_or_insert, Sample,
};
use crate::layer::{LayerColorBlurEffects, LayerEffectClip, LayerEffectClipView};
use crate::lists::{first, lemma_filter_views, lemma_first_is, retain_by};
use crate::masks::share;
use crate::order::{lemma_ordered_views, lemma_rank_unique, ordered, ordered_is_sorted_permutation};
use crate::placing::{next_number, take_id};
use crate::scalar::Scalar;
use crate::selected::sample_value;
use crate::state::{GlobalState, SelectionView, StateView};
use crate::text::{decimal, owned, trim, trimmed};
use crate::time::{greatest, least, monus, Duration};
use crate::tracks::{Timeline, TimelineView, VideoTrackView};
use vstd::prelude::*;

verus! {

broadcast use crate::copying::group_views;

/// How far from a keyframe of a layer a time may be to mean it: a 240th of a second.
pub const LAYER_KEY_REACH: u128 = 4_166_667;

/// The longest a layer effect can be, a day.
pub const LONGEST_LAYER: u128 = 86_400_000_000_000;

/// The shortest a layer effect can be, a tenth of a second.
pub const SHORTEST_LAYER: u128 = 100_000_000;

/// What a layer effect adjusts.
#[derive(Debug, Clone, Copy, PartialEq, Eq, Structural)]
pub enum LayerChannel {
    Brightness,
    Contrast,
    Saturation,
    Blur,
}

impl LayerChannel {
    /// The value that changes nothing.
    pub open spec fn neutral(self) -> Scalar {
        match self {
            LayerChannel::Brightness => Scalar { bits: ZERO },
            LayerChannel::Contrast => Scalar { bits: ONE },
            LayerChannel::Saturation => Scalar { bits: ONE },
            LayerChannel::Blur => Scalar { bits: ZERO },
        }
    }

    /// A value in its range.
    pub open spec fn in_range(self, s: Scalar) -> Scalar {
        match self {
            LayerChannel::Brightness => s.clamped(Scalar { bits: MINUS_ONE }, Scalar { bits: ONE }),
            LayerChannel::Contrast => s.clamped(Scalar { bits: ZERO }, Scalar { bits: TWO }),
            LayerChannel::Saturation => s.clamped(Scalar { bits: ZERO }, Scalar { bits: TWO }),
            LayerChannel::Blur => s.clamped(Scalar { bits: ZERO }, Scalar { bits: SIXTY_FOUR }),
        }
    }

    /// The value that changes nothing.
    pub fn neutral_value(self) -> (s: Scalar)
        ensures
            s == self.neutral(),
    {
        match self {
            LayerChannel::Brightness => Scalar { bits: ZERO },
            LayerChannel::Contrast => Scalar { bits: ONE },
            LayerChannel::Saturation => Scalar { bits: ONE },
            LayerChannel::Blur => Scalar { bits: ZERO },
        }
    }

    /// A value brought into the range of this adjustment.
    pub fn bring_in_range(self, s: Scalar) -> (r: Scalar)
        ensures
            r == self.in_range(s),
    {
        match self {
            LayerChannel::Brightness => s.clamp(Scalar { bits: MINUS_ONE }, Scalar { bits: ONE }),
            LayerChannel::Contrast => s.clamp(Scalar { bits: ZERO }, Scalar { bits: TWO }),
            LayerChannel::Saturation => s.clamp(Scalar { bits: ZERO }, Scalar { bits: TWO }),
            LayerChannel::Blur => s.clamp(Scalar { bits: ZERO }, Scalar { bits: SIXTY_FOUR }),
        }
    }
}

impl LayerColorBlurEffects {
    /// The adjustments with another one.
    pub open spec fn with(self, channel: LayerChannel, s: Scalar) -> LayerColorBlurEffects {
        match channel {
            LayerChannel::Brightness => LayerColorBlurEffects { brightness: s, ..self },
            LayerChannel::Contrast => LayerColorBlurEffects { contrast: s, ..self },
            LayerChannel::Saturation => LayerColorBlurEffects { saturation: s, ..self },
            LayerChannel::Blur => LayerColorBlurEffects { blur_sigma: s, ..self },
        }
    }

    fn set(&mut self, channel: LayerChannel, s: Scalar)
        ensures
            *final(self) == old(self).with(channel, s),
    {
        match channel {
            LayerChannel::Brightness => {
                self.brightness = s;
            },
            LayerChannel::Contrast => {
                self.contrast = s;
            },
            LayerChannel::Saturation => {
                self.saturation = s;
            },
            LayerChannel::Blur => {
                self.blur_sigma = s;
            },
        }
    }
}

impl LayerEffectClipView {
    /// The value of an adjustment without keyframes.
    pub open spec fn value(self, channel: LayerChannel) -> Scalar {
        match channel {
            LayerChannel::Brightness => self.brightness,
            LayerChannel::Contrast => self.contrast,
            LayerChannel::Saturation => self.saturation,
            LayerChannel::Blur => self.blur_sigma,
        }
    }

    /// Whether an adjustment is switched on.
    pub open spec fn is_on(self, channel: LayerChannel) -> bool {
        match channel {
            LayerChannel::Brightness => self.brightness_enabled,
            LayerChannel::Contrast => self.contrast_enabled,
            LayerChannel::Saturation => self.saturation_enabled,
            LayerChannel::Blur => self.blur_enabled,
        }
    }

    /// The keyframes of an adjustment.
    pub open spec fn keys(self, channel: LayerChannel) -> Seq<ScalarKeyframe> {
        match channel {
            LayerChannel::Brightness => self.brightness_keyframes,
            LayerChannel::Contrast => self.contrast_keyframes,
            LayerChannel::Saturation => self.saturation_keyframes,
            LayerChannel::Blur => self.blur_keyframes,
        }
    }

    /// The layer with another value of an adjustment.
    pub open spec fn with_value(self, channel: LayerChannel, s: Scalar) -> LayerEffectClipView {
        match channel {
            LayerChannel::Brightness => LayerEffectClipView { brightness: s, ..self },
            LayerChannel::Contrast => LayerEffectClipView { contrast: s, ..self },
            LayerChannel::Saturation => LayerEffectClipView { saturation: s, ..self },
            LayerChannel::Blur => LayerEffectClipView { blur_sigma: s, ..self },
        }
    }

    /// The layer with an adjustment switched on or off.
    pub open spec fn with_on(self, channel: LayerChannel, on: bool) -> LayerEffectClipView {
        match channel {
            LayerChannel::Brightness => LayerEffectClipView { brightness_enabled: on, ..self },
            LayerChannel::Contrast => LayerEffectClipView { contrast_enabled: on, ..self },
            LayerChannel::Saturation => LayerEffectClipView { saturation_enabled: on, ..self },
            LayerChannel::Blur => LayerEffectClipView { blur_enabled: on, ..self },
        }
    }

    /// The layer with other keyframes of an adjustment.
    pub open spec fn with_keys(self, channel: LayerChannel, keys: Seq<ScalarKeyframe>) -> LayerEffectClipView {
        match channel {
            LayerChannel::Brightness => LayerEffectClipView { brightness_keyframes: keys, ..self },
            LayerChannel::Contrast => LayerEffectClipView { contrast_keyframes: keys, ..self },
            LayerChannel::Saturation => LayerEffectClipView { saturation_keyframes: keys, ..self },
            LayerChannel::Blur => LayerEffectClipView { blur_keyframes: keys, ..self },
        }
    }

    /// Where the layer ends.
    pub open spec fn end(self) -> int {
        time_sum(self.start, self.duration)
    }

    /// Whether the layer is shown at a time.
    pub open spec fn is_shown(self, t: int) -> bool {
        self.start <= t < self.end()
    }

    /// The layer's own time, while it is shown.
    pub open spec fn local_time(self, t: int) -> Option<int> {
        if self.duration <= 0 || !self.is_shown(t) {
            None
        } else {
            Some(least(monus(t, self.start), self.duration))
        }
    }

    /// How an adjustment is found at a time of the layer; nothing is adjusted where it is off.
    pub open spec fn sample(self, channel: LayerChannel, t: int) -> Sample {
        if self.is_on(channel) {
            sampled(self.keys(channel), t, self.value(channel))
        } else {
            Sample::At(channel.neutral())
        }
    }

    /// An adjustment at a time of the layer; between two keyframes it is `on_line`.
    pub open spec fn value_at(self, channel: LayerChannel, t: int, on_line: Scalar) -> Scalar {
        if self.is_on(channel) {
            channel.in_range(sample_value(self.sample(channel, t), on_line))
        } else {
            channel.neutral()
        }
    }

    /// Whether any adjustment is switched on.
    pub open spec fn adjusts(self) -> bool {
        self.brightness_enabled || self.contrast_enabled || self.saturation_enabled
            || self.blur_enabled
    }

    /// Whether there is a keyframe of an adjustment at a time.
    pub open spec fn has_key(self, channel: LayerChannel, t: int) -> bool {
        key_place(self.keys(channel), t, LAYER_KEY_REACH as int) < self.keys(channel).len()
    }

    /// The layer with a value of an adjustment at a time.
    pub open spec fn with_key(self, channel: LayerChannel, t: int, s: Scalar) -> LayerEffectClipView {
        self.with_keys(
            channel,
            keys_with(self.keys(channel), t, channel.in_range(s), LAYER_KEY_REACH as int),
        )
    }

    /// The layer without an adjustment.
    pub open spec fn cleared(self, channel: LayerChannel) -> LayerEffectClipView {
        self.with_on(channel, false).with_value(channel, channel.neutral()).with_keys(
            channel,
            seq![],
        )
    }
}

impl LayerEffectClip {
    /// Where the layer ends.
    pub fn end(&self) -> (d: Duration)
        ensures
            d@ == self@.end(),
    {
        self.start.saturating_add(self.duration)
    }

    /// Whether the layer is shown at a time.
    pub fn shows_at(&self, t: Duration) -> (yes: bool)
        ensures
            yes == self@.is_shown(t@),
    {
        self.start.nanos <= t.nanos && t.nanos < self.end().nanos
    }

    /// The layer's own time, while it is shown.
    pub fn local_time(&self, t: Duration) -> (local: Option<Duration>)
        ensures
            match (local, self@.local_time(t@)) {
                (Some(a), Some(b)) => a@ == b,
                (None, None) => true,
                _ => false,
            },
    {
        if self.duration.nanos == 0 || !self.shows_at(t) {
            None
        } else {
            Some(t.saturating_sub(self.start).min(self.duration))
        }
    }

    fn is_on(&self, channel: LayerChannel) -> (on: bool)
        ensures
            on == self@.is_on(channel),
    {
        match channel {
            LayerChannel::Brightness => self.brightness_enabled,
            LayerChannel::Contrast => self.contrast_enabled,
            LayerChannel::Saturation => self.saturation_enabled,
            LayerChannel::Blur => self.blur_enabled,
        }
    }

    fn value(&self, channel: LayerChannel) -> (s: Scalar)
        ensures
            s == self@.value(channel),
    {
        match channel {
            LayerChannel::Brightness => self.brightness,
            LayerChannel::Contrast => self.contrast,
            LayerChannel::Saturation => self.saturation,
            LayerChannel::Blur => self.blur_sigma,
        }
    }

    fn keys(&self, channel: LayerChannel) -> (keys: &Vec<ScalarKeyframe>)
        ensures
            keys@ == self@.keys(channel),
    {
        match channel {
            LayerChannel::Brightness => &self.brightness_keyframes,
            LayerChannel::Contrast => &self.contrast_keyframes,
            LayerChannel::Saturation => &self.saturation_keyframes,
            LayerChannel::Blur => &self.blur_keyframes,
        }
    }

    fn set_value(&mut self, channel: LayerChannel, s: Scalar)
        ensures
            final(self)@ == old(self)@.with_value(channel, s),
    {
        match channel {
            LayerChannel::Brightness => {
                self.brightness = s;
            },
            LayerChannel::Contrast => {
                self.contrast = s;
            },
            LayerChannel::Saturation => {
                self.saturation = s;
            },
            LayerChannel::Blur => {
                self.blur_sigma = s;
            },
        }
    }

    fn set_on(&mut self, channel: LayerChannel, on: bool)
        ensures
            final(self)@ == old(self)@.with_on(channel, on),
    {
        match channel {
            LayerChannel::Brightness => {
                self.brightness_enabled = on;
            },
            LayerChannel::Contrast => {
                self.contrast_enabled = on;
            },
            LayerChannel::Saturation => {
                self.saturation_enabled = on;
            },
            LayerChannel::Blur => {
                self.blur_enabled = on;
            },
        }
    }

    fn set_keys(&mut self, channel: LayerChannel, keys: Vec<ScalarKeyframe>)
        ensures
            final(self)@ == old(self)@.with_keys(channel, keys@),
    {
        match channel {
            LayerChannel::Brightness => {
                self.brightness_keyframes = keys;
            },
            LayerChannel::Contrast => {
                self.contrast_keyframes = keys;
            },
            LayerChannel::Saturation => {
                self.saturation_keyframes = keys;
            },
            LayerChannel::Blur => {
                self.blur_keyframes = keys;
            },
        }
    }

    /// How an adjustment is found at a time of the layer.
    pub fn sample(&self, channel: LayerChannel, t: Duration) -> (sample: Sample)
        ensures
            sample == self@.sample(channel, t@),
    {
        if self.is_on(channel) {
            sample_linear(self.keys(channel), t, self.value(channel))
        } else {
            Sample::At(channel.neutral_value())
        }
    }

    /// An adjustment at a time of the layer; between two keyframes it is `on_line`.
    pub fn value_at(&self, channel: LayerChannel, t: Duration, on_line: Scalar) -> (s: Scalar)
        ensures
            s == self@.value_at(channel, t@, on_line),
    {
        if self.is_on(channel) {
            let raw = match self.sample(channel, t) {
                Sample::At(s) => s,
                Sample::Between { .. } => on_line,
            };
            channel.bring_in_range(raw)
        } else {
            channel.neutral_value()
        }
    }

    /// Whether any adjustment is switched on.
    pub fn has_any_effect_enabled(&self) -> (yes: bool)
        ensures
            yes == self@.adjusts(),
    {
        self.brightness_enabled || self.contrast_enabled || self.saturation_enabled
            || self.blur_enabled
    }

    fn find_key(&self, channel: LayerChannel, t: Duration) -> (yes: bool)
        ensures
            yes == self@.has_key(channel, t@),
    {
        let reach = Duration { nanos: LAYER_KEY_REACH };
        index_at(self.keys(channel), t, reach).is_some()
    }

    fn set_key(&mut self, channel: LayerChannel, t: Duration, s: Scalar)
        ensures
            final(self)@ == old(self)@.with_key(channel, t@, s),
    {
        let reach = Duration { nanos: LAYER_KEY_REACH };
        let mut keys = copy_list(self.keys(channel));
        set_or_insert(&mut keys, t, channel.bring_in_range(s), reach);
        self.set_keys(channel, keys);
    }

    fn clear(&mut self, channel: LayerChannel)
        ensures
            final(self)@ == old(self)@.cleared(channel),
    {
        self.set_on(channel, false);
        self.set_value(channel, channel.neutral_value());
        let none: Vec<ScalarKeyframe> = Vec::new();
        assert(none@ =~= seq![]);
        self.set_keys(channel, none);
    }
}

/// An adjustment at any time is in its range, as long as it is a number.
pub proof fn layer_values_are_in_range(
    l: LayerEffectClipView,
    channel: LayerChannel,
    t: int,
    on_line: Scalar,
)
    ensures
        channel.in_range(l.value_at(channel, t, on_line)) == l.value_at(channel, t, on_line),
        !l.is_on(channel) ==> l.value_at(channel, t, on_line) == channel.neutral(),
        !l.cleared(channel).is_on(channel),
{
}

// ---------------------------------------------------------------------------
// Changes
// ---------------------------------------------------------------------------

/// A change of a layer.
#[derive(Debug)]
pub enum LayerEdit {
    Adjust(LayerChannel, Scalar),
    AddKey(LayerChannel, Scalar),
    Clear(LayerChannel),
    Script(String),
    Place { start: Duration, track: Option<usize> },
    Length(Duration),
}

/// A change of a layer.
pub ghost enum LayerEditView {
    Adjust(LayerChannel, Scalar),
    AddKey(LayerChannel, Scalar),
    Clear(LayerChannel),
    Script(Seq<char>),
    Place { start: int, track: Option<usize> },
    Length(int),
}

impl View for LayerEdit {
    type V = LayerEditView;

    open spec fn view(&self) -> LayerEditView {
        match *self {
            LayerEdit::Adjust(c, s) => LayerEditView::Adjust(c, s),
            LayerEdit::AddKey(c, s) => LayerEditView::AddKey(c, s),
            LayerEdit::Clear(c) => LayerEditView::Clear(c),
            LayerEdit::Script(t) => LayerEditView::Script(t@),
            LayerEdit::Place { start, track } => LayerEditView::Place { start: start@, track },
            LayerEdit::Length(d) => LayerEditView::Length(d@),
        }
    }
}

impl LayerEffectClipView {
    /// The layer with an adjustment set: at the keyframe at the playhead, if there is one.
    pub open spec fn with_set(self, channel: LayerChannel, s: Scalar, playhead: int) -> LayerEffectClipView {
        let on = self.with_on(channel, true);
        match on.local_time(playhead) {
            Some(t) if on.has_key(channel, t) => on.with_key(channel, t, channel.in_range(s)),
            _ => on.with_value(channel, channel.in_range(s)),
        }
    }

    /// The layer with a keyframe at the playhead, if it is shown there. On the line between two
    /// keyframes its value is `on_line`.
    pub open spec fn with_key_here(self, channel: LayerChannel, on_line: Scalar, playhead: int) -> LayerEffectClipView {
        let on = self.with_on(channel, true);
        match on.local_time(playhead) {
            Some(t) => on.with_key(channel, t, on.value_at(channel, t, on_line)),
            None => on,
        }
    }

    /// The layer after a change. A script is kept without white space around it, and an
    /// empty one is switched off.
    #[verifier::opaque]
    pub open spec fn edited(self, e: LayerEditView, playhead: int, tracks: int) -> LayerEffectClipView {
        match e {
            LayerEditView::Adjust(c, s) => self.with_set(c, s, playhead),
            LayerEditView::AddKey(c, s) => self.with_key_here(c, s, playhead),
            LayerEditView::Clear(c) => self.cleared(c),
            LayerEditView::Script(t) => LayerEffectClipView {
                motionloom_enabled: trimmed(t).len() > 0,
                motionloom_script: trimmed(t),
                ..self
            },
            LayerEditView::Place { start, track } => LayerEffectClipView {
                start,
                track_index: match track {
                    Some(i) if i < tracks => i,
                    _ => self.track_index,
                },
                ..self
            },
            LayerEditView::Length(d) => LayerEffectClipView {
                duration: if d < SHORTEST_LAYER {
                    SHORTEST_LAYER as int
                } else if d > LONGEST_LAYER {
                    LONGEST_LAYER as int
                } else {
                    d
                },
                ..self
            },
        }
    }
}

impl LayerEffectClip {
    fn set_here(&mut self, channel: LayerChannel, s: Scalar, playhead: Duration)
        ensures
            final(self)@ == old(self)@.with_set(channel, s, playhead@),
    {
        self.set_on(channel, true);
        let value = channel.bring_in_range(s);
        if let Some(t) = self.local_time(playhead) {
            if self.find_key(channel, t) {
                self.set_key(channel, t, value);
                return;
            }
        }
        self.set_value(channel, value);
    }

    fn add_key_here(&mut self, channel: LayerChannel, on_line: Scalar, playhead: Duration)
        ensures
            final(self)@ == old(self)@.with_key_here(channel, on_line, playhead@),
    {
        self.set_on(channel, true);
        if let Some(t) = self.local_time(playhead) {
            let value = self.value_at(channel, t, on_line);
            self.set_key(channel, t, value);
        }
    }

    fn edit(&mut self, e: &LayerEdit, playhead: Duration, tracks: usize)
        ensures
            final(self)@ == old(self)@.edited(e@, playhead@, tracks as int),
    {
        reveal(LayerEffectClipView::edited);
        match e {
            LayerEdit::Adjust(c, s) => self.set_here(*c, *s, playhead),
            LayerEdit::AddKey(c, s) => self.add_key_here(*c, *s, playhead),
            LayerEdit::Clear(c) => self.clear(*c),
            LayerEdit::Script(t) => {
                let script = trim(t.as_str());
                self.motionloom_enabled = script.as_str().unicode_len() > 0;
                self.motionloom_script = script;
            },
            LayerEdit::Place { start, track } => {
                self.start = *start;
                if let Some(i) = *track {
                    if i < tracks {
                        self.track_index = i;
                    }
                }
            },
            LayerEdit::Length(d) => {
                self.duration = if d.nanos < SHORTEST_LAYER {
                    Duration { nanos: SHORTEST_LAYER }
                } else if d.nanos > LONGEST_LAYER {
                    Duration { nanos: LONGEST_LAYER }
                } else {
                    *d
                };
            },
        }
    }
}

/// The place of the layer with the id.
pub open spec fn layer_place(layers: Seq<LayerEffectClipView>, id: u64) -> int {
    first(layers, has_layer_id(id))
}

/// Whether a layer has the id.
pub open spec fn has_layer_id(id: u64) -> spec_fn(LayerEffectClipView) -> bool {
    |l: LayerEffectClipView| l.id == id
}

/// The place of the layer with the id, or the length.
pub fn find_layer(layers: &Vec<LayerEffectClip>, id: u64) -> (at: usize)
    ensures
        at == layer_place(views(layers@), id),
        at <= layers.len(),
        at < layers.len() ==> layers@[at as int].id == id,
{
    let ghost p = has_layer_id(id);
    let mut i: usize = 0;
    while i < layers.len()
        invariant
            i <= layers.len(),
            p == has_layer_id(id),
            forall|j: int| 0 <= j < i ==> !p(#[trigger] views(layers@)[j]),
        decreases layers.len() - i,
    {
        if layers[i].id == id {
            proof {
                assert(p(views(layers@)[i as int]));
                lemma_first_is(views(layers@), p, i as int);
            }
            return i;
        }
        assert(!p(views(layers@)[i as int]));
        i += 1;
    }
    proof {
        lemma_first_is(views(layers@), p, i as int);
    }
    i
}

/// A number that orders layers by their tracks and on a track by their starts.
pub open spec fn layer_rank(l: LayerEffectClipView) -> int {
    l.track_index * 0x1_0000_0000_0000_0000_0000_0000_0000_0000 + l.start
}

/// Layers in order of their tracks, and on a track of their starts.
pub open spec fn layers_in_order(layers: Seq<LayerEffectClipView>) -> Seq<LayerEffectClipView> {
    ordered(layers, |l: LayerEffectClipView| layer_rank(l))
}

/// Layers are in order of their tracks, and on a track of their starts.
pub proof fn layers_are_in_order(layers: Seq<LayerEffectClipView>, i: int, j: int)
    requires
        0 <= i < j < layers.len(),
        forall|k: int|
            0 <= k < layers.len() ==> 0 <= (#[trigger] layers[k]).start <= u128::MAX,
    ensures
        ({
            let a = layers_in_order(layers)[i];
            let b = layers_in_order(layers)[j];
            a.track_index < b.track_index || (a.track_index == b.track_index && a.start <= b.start)
        }),
{
    broadcast use vstd::seq_lib::group_to_multiset_ensures;

    let key = |l: LayerEffectClipView| layer_rank(l);
    ordered_is_sorted_permutation(layers, key);
    let out = layers_in_order(layers);
    let a = out[i];
    let b = out[j];
    assert(key(out[i]) <= key(out[j]));
    assert(out.contains(a) && out.contains(b));
    assert(layers.to_multiset().count(a) > 0 && layers.to_multiset().count(b) > 0);
    assert(layers.contains(a) && layers.contains(b));
    let k = choose|k: int| 0 <= k < layers.len() && layers[k] == a;
    let m = choose|m: int| 0 <= m < layers.len() && layers[m] == b;
    assert(layers[k].start >= 0 && layers[m].start <= u128::MAX);
}

fn comes_after(a: &LayerEffectClip, b: &LayerEffectClip) -> (yes: bool)
    ensures
        yes == (layer_rank(a@) > layer_rank(b@)),
{
    a.track_index > b.track_index || (a.track_index == b.track_index && a.start.nanos
        > b.start.nanos)
}

fn sort_layers(layers: &mut Vec<LayerEffectClip>)
    ensures
        views(final(layers)@) == layers_in_order(views(old(layers)@)),
{
    let ghost key = |l: LayerEffectClip| layer_rank(l@);
    let mut rest: Vec<LayerEffectClip> = Vec::new();
    std::mem::swap(layers, &mut rest);
    let ghost all = rest@;
    assert(all.take(0) =~= Seq::<LayerEffectClip>::empty());
    while rest.len() > 0
        invariant
            rest@ == all.skip(all.len() - rest@.len()),
            rest@.len() <= all.len(),
            key == (|l: LayerEffectClip| layer_rank(l@)),
            layers@ == ordered(all.take(all.len() - rest@.len()), key),
        decreases rest.len(),
    {
        let ghost done = all.len() - rest@.len();
        let x = rest.remove(0);
        let mut at: usize = layers.len();
        while at > 0 && comes_after(&layers[at - 1], &x)
            invariant
                at <= layers.len(),
                forall|i: int|
                    at <= i < layers.len() ==> layer_rank((#[trigger] layers@[i])@) > layer_rank(x@),
            decreases at,
        {
            at = at - 1;
        }
        proof {
            ordered_is_sorted_permutation(all.take(done), key);
            assert forall|i: int| at <= i < layers.len() implies key(#[trigger] layers@[i])
                > layer_rank(x@) by {
                assert(layer_rank(layers@[i]@) > layer_rank(x@));
            }
            lemma_rank_unique(layers@, layer_rank(x@), key, at as int);
            assert(all.take(done + 1).drop_last() =~= all.take(done));
            assert(all.take(done + 1).last() == x);
            assert(rest@ =~= all.skip(done + 1));
        }
        layers.insert(at, x);
    }
    assert(all.take(all.len() as int) =~= all);
    proof {
        lemma_ordered_views(all, key, |l: LayerEffectClipView| layer_rank(l));
    }
}

impl TimelineView {
    /// The id of the selected layer, if it is there.
    pub open spec fn selected_layer_id(self) -> Option<u64> {
        match self.selected_layer_effect_clip_id {
            Some(id) => if layer_place(self.layer_effect_clips, id) < self.layer_effect_clips.len() {
                Some(id)
            } else {
                None
            },
            None => None,
        }
    }

    /// The layer with the id.
    pub open spec fn layer(self, id: u64) -> LayerEffectClipView {
        self.layer_effect_clips[layer_place(self.layer_effect_clips, id)]
    }

    /// The selected layer, if it is there.
    pub open spec fn selected_layer(self) -> Option<LayerEffectClipView> {
        match self.selected_layer_id() {
            Some(id) => Some(self.layer(id)),
            None => None,
        }
    }

    /// The timeline with a change of the layer with the id, which is there.
    #[verifier::opaque]
    pub open spec fn with_layer_edit(self, id: u64, e: LayerEditView) -> TimelineView {
        let at = layer_place(self.layer_effect_clips, id);
        TimelineView {
            layer_effect_clips: self.layer_effect_clips.update(
                at,
                self.layer_effect_clips[at].edited(
                    e,
                    self.playhead,
                    self.video_tracks.len() as int,
                ),
            ),
            ..self
        }
    }

    /// The timeline with another one of the adjustments for all.
    pub open spec fn with_common(self, channel: LayerChannel, s: Scalar) -> TimelineView {
        TimelineView {
            layer_color_blur_effects: self.layer_color_blur_effects.with(channel, s),
            ..self
        }
    }

    /// The timeline with an adjustment of a layer set, and that for all with it.
    pub open spec fn with_layer_set(self, id: u64, channel: LayerChannel, s: Scalar) -> TimelineView {
        let t = self.with_layer_edit(id, LayerEditView::Adjust(channel, s));
        t.with_common(channel, t.layer(id).value(channel))
    }

    /// The timeline with an adjustment of a layer taken off, and that for all with it.
    pub open spec fn with_layer_cleared(self, id: u64, channel: LayerChannel) -> TimelineView {
        self.with_layer_edit(id, LayerEditView::Clear(channel)).with_common(
            channel,
            channel.neutral(),
        )
    }
}

impl Timeline {
    fn find_selected_layer(&self) -> (at: Option<usize>)
        ensures
            match at {
                Some(i) => i < self.layer_effect_clips.len() && self@.selected_layer_id() is Some
                    && i == layer_place(
                    self@.layer_effect_clips,
                    self@.selected_layer_id()->0,
                ) && self@.selected_layer() == Some(self.layer_effect_clips@[i as int]@)
                    && self.layer_effect_clips@[i as int].id == self@.selected_layer_id()->0,
                None => self@.selected_layer_id() is None,
            },
    {
        match self.selected_layer_effect_clip_id {
            Some(id) => {
                let at = find_layer(&self.layer_effect_clips, id);
                if at < self.layer_effect_clips.len() {
                    Some(at)
                } else {
                    None
                }
            },
            None => None,
        }
    }

    fn edit_layer(&mut self, id: u64, e: &LayerEdit)
        requires
            layer_place(old(self)@.layer_effect_clips, id) < old(self)@.layer_effect_clips.len(),
        ensures
            final(self)@ == old(self)@.with_layer_edit(id, e@),
            final(self)@.layer_effect_clips.len() == old(self)@.layer_effect_clips.len(),
    {
        reveal(TimelineView::with_layer_edit);
        let at = find_layer(&self.layer_effect_clips, id);
        let ghost before = self.layer_effect_clips@;
        let playhead = self.playhead;
        let tracks = self.video_tracks.len();
        self.layer_effect_clips[at].edit(e, playhead, tracks);
        assert(self.layer_effect_clips@ =~= before.update(
            at as int,
            self.layer_effect_clips@[at as int],
        ));
    }

    fn set_layer(&mut self, id: u64, channel: LayerChannel, s: Scalar)
        requires
            layer_place(old(self)@.layer_effect_clips, id) < old(self)@.layer_effect_clips.len(),
        ensures
            final(self)@ == old(self)@.with_layer_set(id, channel, s),
    {
        let ghost base = self@;
        let e = LayerEdit::Adjust(channel, s);
        self.edit_layer(id, &e);
        proof {
            lemma_edit_keeps_ids(base, id, e@);
        }
        let at = find_layer(&self.layer_effect_clips, id);
        let value = self.layer_effect_clips[at].value(channel);
        self.layer_color_blur_effects.set(channel, value);
    }

    fn clear_layer(&mut self, id: u64, channel: LayerChannel)
        requires
            layer_place(old(self)@.layer_effect_clips, id) < old(self)@.layer_effect_clips.len(),
        ensures
            final(self)@ == old(self)@.with_layer_cleared(id, channel),
    {
        let e = LayerEdit::Clear(channel);
        self.edit_layer(id, &e);
        self.layer_color_blur_effects.set(channel, channel.neutral_value());
    }
}

proof fn lemma_edit_keeps_ids(t: TimelineView, id: u64, e: LayerEditView)
    requires
        layer_place(t.layer_effect_clips, id) < t.layer_effect_clips.len(),
    ensures
        layer_place(t.with_layer_edit(id, e).layer_effect_clips, id) == layer_place(
            t.layer_effect_clips,
            id,
        ),
{
    reveal(TimelineView::with_layer_edit);
    reveal(LayerEffectClipView::edited);
    let p = has_layer_id(id);
    let before = t.layer_effect_clips;
    let after = t.with_layer_edit(id, e).layer_effect_clips;
    crate::lists::lemma_first(before, p);
    let at = layer_place(before, id);
    assert(p(before[at]));
    assert(p(after[at]));
    assert forall|j: int| 0 <= j < at implies !p(#[trigger] after[j]) by {
        assert(after[j] == before[j]);
    }
    lemma_first_is(after, p, at);
}

impl StateView {
    /// The state with a change of the selected layer.
    pub open spec fn layer_edited(self, e: LayerEditView) -> StateView {
        match self.timeline.selected_layer_id() {
            Some(id) => {
                let s = self.saved(false);
                StateView { timeline: s.timeline.with_layer_edit(id, e), ..s }
            },
            None => self,
        }
    }

    /// The time of the selected layer at the playhead, if it is shown there.
    pub open spec fn layer_time(self) -> Option<int> {
        match self.timeline.selected_layer() {
            Some(l) => l.local_time(self.timeline.playhead),
            None => None,
        }
    }

    /// An adjustment of the selected layer at the playhead; between two keyframes it is
    /// `on_line`, and where the layer is not shown it is the one without keyframes.
    pub open spec fn layer_value(self, channel: LayerChannel, on_line: Scalar) -> Option<Scalar> {
        match self.timeline.selected_layer() {
            Some(l) => Some(
                match l.local_time(self.timeline.playhead) {
                    Some(t) => l.value_at(channel, t, on_line),
                    None => if l.is_on(channel) {
                        l.value(channel)
                    } else {
                        channel.neutral()
                    },
                },
            ),
            None => None,
        }
    }
}

impl GlobalState {
    /// The adjustments for all.
    pub fn layer_color_blur_effects(&self) -> (effects: LayerColorBlurEffects)
        ensures
            effects == self@.timeline.layer_color_blur_effects,
    {
        self.timeline.layer_color_blur_effects
    }

    /// Changes the adjustments for all.
    pub fn set_layer_color_blur_effects(&mut self, effects: LayerColorBlurEffects)
        ensures
            final(self)@ == (StateView {
                timeline: TimelineView {
                    layer_color_blur_effects: effects.in_range(),
                    ..old(self)@.timeline
                },
                ..old(self)@
            }),
    {
        self.timeline.layer_color_blur_effects = effects.normalized();
    }

    /// The layers.
    pub fn layer_effect_clips(&self) -> (layers: &Vec<LayerEffectClip>)
        ensures
            views(layers@) == self@.timeline.layer_effect_clips,
    {
        &self.timeline.layer_effect_clips
    }

    /// Whether a layer is selected.
    pub fn layer_effect_clip_selected(&self) -> (yes: bool)
        ensures
            yes == self@.timeline.selected_layer_id() is Some,
    {
        self.timeline.find_selected_layer().is_some()
    }

    /// The id of the selected layer, if it is there.
    pub fn selected_layer_effect_clip_id(&self) -> (id: Option<u64>)
        ensures
            id == self@.timeline.selected_layer_id(),
    {
        match self.timeline.find_selected_layer() {
            Some(at) => Some(self.timeline.layer_effect_clips[at].id),
            None => None,
        }
    }

    /// A copy of the selected layer, if it is there.
    pub fn selected_layer_effect_clip(&self) -> (layer: Option<LayerEffectClip>)
        ensures
            optional(layer) == self@.timeline.selected_layer(),
    {
        match self.timeline.find_selected_layer() {
            Some(at) => Some(self.timeline.layer_effect_clips[at].clone()),
            None => None,
        }
    }

    /// Gives a layer another script. Says whether it is there.
    pub fn set_layer_effect_clip_motionloom_script(&mut self, clip_id: u64, script: String) -> (done:
        bool)
        ensures
            done == (layer_place(old(self)@.timeline.layer_effect_clips, clip_id) < old(
                self,
            )@.timeline.layer_effect_clips.len()),
            final(self)@ == if done {
                StateView {
                    timeline: old(self)@.timeline.with_layer_edit(
                        clip_id,
                        LayerEditView::Script(script@),
                    ),
                    ..old(self)@
                }
            } else {
                old(self)@
            },
    {
        if find_layer(&self.timeline.layer_effect_clips, clip_id)
            >= self.timeline.layer_effect_clips.len() {
            return false;
        }
        let e = LayerEdit::Script(script);
        self.timeline.edit_layer(clip_id, &e);
        true
    }

    fn layer_value(&self, channel: LayerChannel, on_line: Scalar) -> (s: Option<Scalar>)
        ensures
            s == self@.layer_value(channel, on_line),
    {
        match self.timeline.find_selected_layer() {
            Some(at) => {
                let l = &self.timeline.layer_effect_clips[at];
                Some(
                    match l.local_time(self.timeline.playhead) {
                        Some(t) => l.value_at(channel, t, on_line),
                        None => if l.is_on(channel) {
                            l.value(channel)
                        } else {
                            channel.neutral_value()
                        },
                    },
                )
            },
            None => None,
        }
    }

    fn layer_is_on(&self, channel: LayerChannel) -> (yes: bool)
        ensures
            yes == match self@.timeline.selected_layer() {
                Some(l) => l.is_on(channel),
                None => false,
            },
    {
        match self.timeline.find_selected_layer() {
            Some(at) => self.timeline.layer_effect_clips[at].is_on(channel),
            None => false,
        }
    }

    fn set_layer_value(&mut self, channel: LayerChannel, val: Scalar, unchanged: bool) -> (done: bool)
        ensures
            done == (!unchanged && old(self)@.timeline.selected_layer_id() is Some),
            final(self)@ == if done {
                let s = old(self)@.saved(false);
                StateView {
                    timeline: s.timeline.with_layer_set(
                        old(self)@.timeline.selected_layer_id()->0,
                        channel,
                        val,
                    ),
                    ..s
                }
            } else {
                old(self)@
            },
    {
        let id = match self.selected_layer_effect_clip_id() {
            Some(id) => id,
            None => {
                return false;
            },
        };
        if unchanged {
            return false;
        }
        self.save_for_undo();
        self.timeline.set_layer(id, channel, val);
        true
    }

    fn layer_time(&self) -> (t: Option<Duration>)
        ensures
            match (t, self@.layer_time()) {
                (Some(a), Some(b)) => a@ == b,
                (None, None) => true,
                _ => false,
            },
    {
        match self.timeline.find_selected_layer() {
            Some(at) => self.timeline.layer_effect_clips[at].local_time(self.timeline.playhead),
            None => None,
        }
    }

    fn add_layer_key(&mut self, channel: LayerChannel, on_line: Scalar) -> (done: bool)
        ensures
            done == old(self)@.layer_time() is Some,
            final(self)@ == if done {
                old(self)@.layer_edited(LayerEditView::AddKey(channel, on_line))
            } else {
                old(self)@
            },
    {
        if self.layer_time().is_none() {
            return false;
        }
        match self.selected_layer_effect_clip_id() {
            Some(id) => {
                self.save_for_undo();
                let e = LayerEdit::AddKey(channel, on_line);
                self.timeline.edit_layer(id, &e);
                true
            },
            None => false,
        }
    }

    fn layer_has_key(&self, channel: LayerChannel) -> (yes: bool)
        ensures
            yes == match self@.layer_time() {
                Some(t) => self@.timeline.selected_layer()->0.has_key(channel, t),
                None => false,
            },
    {
        match self.timeline.find_selected_layer() {
            Some(at) => {
                let l = &self.timeline.layer_effect_clips[at];
                match l.local_time(self.timeline.playhead) {
                    Some(t) => l.find_key(channel, t),
                    None => false,
                }
            },
            None => false,
        }
    }

    fn remove_layer_effect(&mut self, channel: LayerChannel) -> (done: bool)
        ensures
            done == match old(self)@.timeline.selected_layer() {
                Some(l) => l.is_on(channel),
                None => false,
            },
            final(self)@ == if done {
                let s = old(self)@.saved(false);
                StateView {
                    timeline: s.timeline.with_layer_cleared(
                        old(self)@.timeline.selected_layer_id()->0,
                        channel,
                    ),
                    ..s
                }
            } else {
                old(self)@
            },
    {
        if !self.layer_is_on(channel) {
            return false;
        }
        match self.selected_layer_effect_clip_id() {
            Some(id) => {
                self.save_for_undo();
                self.timeline.clear_layer(id, channel);
                true
            },
            None => false,
        }
    }

    /// Whether the brightness of the selected layer is switched on.
    pub fn selected_layer_effect_brightness_enabled(&self) -> (yes: bool)
        ensures
            yes == match self@.timeline.selected_layer() {
                Some(l) => l.brightness_enabled,
                None => false,
            },
    {
        self.layer_is_on(LayerChannel::Brightness)
    }

    /// The brightness of the selected layer at the playhead; between two keyframes it is `on_line`.
    pub fn get_selected_layer_effect_brightness(&self, on_line: Scalar) -> (s: Option<Scalar>)
        ensures
            s == self@.layer_value(LayerChannel::Brightness, on_line),
    {
        self.layer_value(LayerChannel::Brightness, on_line)
    }

    /// Changes the brightness of the selected layer, unless it is `unchanged`. Says whether it did.
    pub fn set_selected_layer_effect_brightness(&mut self, val: Scalar, unchanged: bool) -> (done: bool)
        ensures
            done == (!unchanged && old(self)@.timeline.selected_layer_id() is Some),
            final(self)@ == if done {
                let s = old(self)@.saved(false);
                StateView {
                    timeline: s.timeline.with_layer_set(
                        old(self)@.timeline.selected_layer_id()->0,
                        LayerChannel::Brightness,
                        val,
                    ),
                    ..s
                }
            } else {
                old(self)@
            },
    {
        self.set_layer_value(LayerChannel::Brightness, val, unchanged)
    }

    /// Adds a keyframe of the brightness at the playhead, if the selected layer is shown there. On
    /// the line between two keyframes its value is `on_line`. Says whether it did.
    pub fn add_selected_layer_effect_brightness_keyframe(&mut self, on_line: Scalar) -> (done: bool)
        ensures
            done == old(self)@.layer_time() is Some,
            final(self)@ == if done {
                old(self)@.layer_edited(LayerEditView::AddKey(LayerChannel::Brightness, on_line))
            } else {
                old(self)@
            },
    {
        self.add_layer_key(LayerChannel::Brightness, on_line)
    }

    /// Whether the selected layer has a keyframe of the brightness at the playhead.
    pub fn selected_layer_effect_has_brightness_keyframe(&self) -> (yes: bool)
        ensures
            yes == match self@.layer_time() {
                Some(t) => self@.timeline.selected_layer()->0.has_key(LayerChannel::Brightness, t),
                None => false,
            },
    {
        self.layer_has_key(LayerChannel::Brightness)
    }

    /// Takes the brightness off the selected layer. Says whether it was on.
    pub fn remove_selected_layer_effect_brightness(&mut self) -> (done: bool)
        ensures
            done == match old(self)@.timeline.selected_layer() {
                Some(l) => l.brightness_enabled,
                None => false,
            },
            final(self)@ == if done {
                let s = old(self)@.saved(false);
                StateView {
                    timeline: s.timeline.with_layer_cleared(
                        old(self)@.timeline.selected_layer_id()->0,
                        LayerChannel::Brightness,
                    ),
                    ..s
                }
            } else {
                old(self)@
            },
    {
        self.remove_layer_effect(LayerChannel::Brightness)
    }

    /// Whether the contrast of the selected layer is switched on.
    pub fn selected_layer_effect_contrast_enabled(&self) -> (yes: bool)
        ensures
            yes == match self@.timeline.selected_layer() {
                Some(l) => l.contrast_enabled,
                None => false,
            },
    {
        self.layer_is_on(LayerChannel::Contrast)
    }

    /// The contrast of the selected layer at the playhead; between two keyframes it is `on_line`.
    pub fn get_selected_layer_effect_contrast(&self, on_line: Scalar) -> (s: Option<Scalar>)
        ensures
            s == self@.layer_value(LayerChannel::Contrast, on_line),
    {
        self.layer_value(LayerChannel::Contrast, on_line)
    }

    /// Changes the contrast of the selected layer, unless it is `unchanged`. Says whether it did.
    pub fn set_selected_layer_effect_contrast(&mut self, val: Scalar, unchanged: bool) -> (done: bool)
        ensures
            done == (!unchanged && old(self)@.timeline.selected_layer_id() is Some),
            final(self)@ == if done {
                let s = old(self)@.saved(false);
                StateView {
                    timeline: s.timeline.with_layer_set(
                        old(self)@.timeline.selected_layer_id()->0,
                        LayerChannel::Contrast,
                        val,
                    ),
                    ..s
                }
            } else {
                old(self)@
            },
    {
        self.set_layer_value(LayerChannel::Contrast, val, unchanged)
    }

    /// Adds a keyframe of the contrast at the playhead, if the selected layer is shown there. On
    /// the line between two keyframes its value is `on_line`. Says whether it did.
    pub fn add_selected_layer_effect_contrast_keyframe(&mut self, on_line: Scalar) -> (done: bool)
        ensures
            done == old(self)@.layer_time() is Some,
            final(self)@ == if done {
                old(self)@.layer_edited(LayerEditView::AddKey(LayerChannel::Contrast, on_line))
            } else {
                old(self)@
            },
    {
        self.add_layer_key(LayerChannel::Contrast, on_line)
    }

    /// Whether the selected layer has a keyframe of the contrast at the playhead.
    pub fn selected_layer_effect_has_contrast_keyframe(&self) -> (yes: bool)
        ensures
            yes == match self@.layer_time() {
                Some(t) => self@.timeline.selected_layer()->0.has_key(LayerChannel::Contrast, t),
                None => false,
            },
    {
        self.layer_has_key(LayerChannel::Contrast)
    }

    /// Takes the contrast off the selected layer. Says whether it was on.
    pub fn remove_selected_layer_effect_contrast(&mut self) -> (done: bool)
        ensures
            done == match old(self)@.timeline.selected_layer() {
                Some(l) => l.contrast_enabled,
                None => false,
            },
            final(self)@ == if done {
                let s = old(self)@.saved(false);
                StateView {
                    timeline: s.timeline.with_layer_cleared(
                        old(self)@.timeline.selected_layer_id()->0,
                        LayerChannel::Contrast,
                    ),
                    ..s
                }
            } else {
                old(self)@
            },
    {
        self.remove_layer_effect(LayerChannel::Contrast)
    }

    /// Whether the saturation of the selected layer is switched on.
    pub fn selected_layer_effect_saturation_enabled(&self) -> (yes: bool)
        ensures
            yes == match self@.timeline.selected_layer() {
                Some(l) => l.saturation_enabled,
                None => false,
            },
    {
        self.layer_is_on(LayerChannel::Saturation)
    }

    /// The saturation of the selected layer at the playhead; between two keyframes it is `on_line`.
    pub fn get_selected_layer_effect_saturation(&self, on_line: Scalar) -> (s: Option<Scalar>)
        ensures
            s == self@.layer_value(LayerChannel::Saturation, on_line),
    {
        self.layer_value(LayerChannel::Saturation, on_line)
    }

    /// Changes the saturation of the selected layer, unless it is `unchanged`. Says whether it did.
    pub fn set_selected_layer_effect_saturation(&mut self, val: Scalar, unchanged: bool) -> (done: bool)
        ensures
            done == (!unchanged && old(self)@.timeline.selected_layer_id() is Some),
            final(self)@ == if done {
                let s = old(self)@.saved(false);
                StateView {
                    timeline: s.timeline.with_layer_set(
                        old(self)@.timeline.selected_layer_id()->0,
                        LayerChannel::Saturation,
                        val,
                    ),
                    ..s
                }
            } else {
                old(self)@
            },
    {
        self.set_layer_value(LayerChannel::Saturation, val, unchanged)
    }

    /// Adds a keyframe of the saturation at the playhead, if the selected layer is shown there. On
    /// the line between two keyframes its value is `on_line`. Says whether it did.
    pub fn add_selected_layer_effect_saturation_keyframe(&mut self, on_line: Scalar) -> (done: bool)
        ensures
            done == old(self)@.layer_time() is Some,
            final(self)@ == if done {
                old(self)@.layer_edited(LayerEditView::AddKey(LayerChannel::Saturation, on_line))
            } else {
                old(self)@
            },
    {
        self.add_layer_key(LayerChannel::Saturation, on_line)
    }

    /// Whether the selected layer has a keyframe of the saturation at the playhead.
    pub fn selected_layer_effect_has_saturation_keyframe(&self) -> (yes: bool)
        ensures
            yes == match self@.layer_time() {
                Some(t) => self@.timeline.selected_layer()->0.has_key(LayerChannel::Saturation, t),
                None => false,
            },
    {
        self.layer_has_key(LayerChannel::Saturation)
    }

    /// Takes the saturation off the selected layer. Says whether it was on.
    pub fn remove_selected_layer_effect_saturation(&mut self) -> (done: bool)
        ensures
            done == match old(self)@.timeline.selected_layer() {
                Some(l) => l.saturation_enabled,
                None => false,
            },
            final(self)@ == if done {
                let s = old(self)@.saved(false);
                StateView {
                    timeline: s.timeline.with_layer_cleared(
                        old(self)@.timeline.selected_layer_id()->0,
                        LayerChannel::Saturation,
                    ),
                    ..s
                }
            } else {
                old(self)@
            },
    {
        self.remove_layer_effect(LayerChannel::Saturation)
    }

    /// Whether the blur of the selected layer is switched on.
    pub fn selected_layer_effect_blur_enabled(&self) -> (yes: bool)
        ensures
            yes == match self@.timeline.selected_layer() {
                Some(l) => l.blur_enabled,
                None => false,
            },
    {
        self.layer_is_on(LayerChannel::Blur)
    }

    /// The blur of the selected layer at the playhead; between two keyframes it is `on_line`.
    pub fn get_selected_layer_effect_blur(&self, on_line: Scalar) -> (s: Option<Scalar>)
        ensures
            s == self@.layer_value(LayerChannel::Blur, on_line),
    {
        self.layer_value(LayerChannel::Blur, on_line)
    }

    /// Changes the blur of the selected layer, unless it is `unchanged`. Says whether it did.
    pub fn set_selected_layer_effect_blur(&mut self, val: Scalar, unchanged: bool) -> (done: bool)
        ensures
            done == (!unchanged && old(self)@.timeline.selected_layer_id() is Some),
            final(self)@ == if done {
                let s = old(self)@.saved(false);
                StateView {
                    timeline: s.timeline.with_layer_set(
                        old(self)@.timeline.selected_layer_id()->0,
                        LayerChannel::Blur,
                        val,
                    ),
                    ..s
                }
            } else {
                old(self)@
            },
    {
        self.set_layer_value(LayerChannel::Blur, val, unchanged)
    }

    /// Adds a keyframe of the blur at the playhead, if the selected layer is shown there. On
    /// the line between two keyframes its value is `on_line`. Says whether it did.
    pub fn add_selected_layer_effect_blur_keyframe(&mut self, on_line: Scalar) -> (done: bool)
        ensures
            done == old(self)@.layer_time() is Some,
            final(self)@ == if done {
                old(self)@.layer_edited(LayerEditView::AddKey(LayerChannel::Blur, on_line))
            } else {
                old(self)@
            },
    {
        self.add_layer_key(LayerChannel::Blur, on_line)
    }

    /// Whether the selected layer has a keyframe of the blur at the playhead.
    pub fn selected_layer_effect_has_blur_keyframe(&self) -> (yes: bool)
        ensures
            yes == match self@.layer_time() {
                Some(t) => self@.timeline.selected_layer()->0.has_key(LayerChannel::Blur, t),
                None => false,
            },
    {
        self.layer_has_key(LayerChannel::Blur)
    }

    /// Takes the blur off the selected layer. Says whether it was on.
    pub fn remove_selected_layer_effect_blur(&mut self) -> (done: bool)
        ensures
            done == match old(self)@.timeline.selected_layer() {
                Some(l) => l.blur_enabled,
                None => false,
            },
            final(self)@ == if done {
                let s = old(self)@.saved(false);
                StateView {
                    timeline: s.timeline.with_layer_cleared(
                        old(self)@.timeline.selected_layer_id()->0,
                        LayerChannel::Blur,
                    ),
                    ..s
                }
            } else {
                old(self)@
            },
    {
        self.remove_layer_effect(LayerChannel::Blur)
    }
}

// ---------------------------------------------------------------------------
// Layers
// ---------------------------------------------------------------------------

/// A layer that adjusts nothing, ten seconds from the start on.
pub open spec fn new_layer(id: u64, track_index: usize) -> LayerEffectClipView {
    LayerEffectClipView {
        id,
        start: 0,
        duration: 10_000_000_000,
        track_index,
        fade_in: 0,
        fade_out: 0,
        brightness: Scalar { bits: ZERO },
        contrast: Scalar { bits: ONE },
        saturation: Scalar { bits: ONE },
        blur_sigma: Scalar { bits: ZERO },
        brightness_enabled: false,
        contrast_enabled: false,
        saturation_enabled: false,
        blur_enabled: false,
        brightness_keyframes: seq![],
        contrast_keyframes: seq![],
        saturation_keyframes: seq![],
        blur_keyframes: seq![],
        motionloom_enabled: false,
        motionloom_script: ""@,
    }
}

fn make_layer(id: u64, track_index: usize) -> (l: LayerEffectClip)
    ensures
        l@ == new_layer(id, track_index),
{
    let l = LayerEffectClip {
        id,
        start: Duration::zero(),
        duration: Duration { nanos: 10_000_000_000 },
        track_index,
        fade_in: Duration::zero(),
        fade_out: Duration::zero(),
        brightness: Scalar { bits: ZERO },
        contrast: Scalar { bits: ONE },
        saturation: Scalar { bits: ONE },
        blur_sigma: Scalar { bits: ZERO },
        brightness_enabled: false,
        contrast_enabled: false,
        saturation_enabled: false,
        blur_enabled: false,
        brightness_keyframes: Vec::new(),
        contrast_keyframes: Vec::new(),
        saturation_keyframes: Vec::new(),
        blur_keyframes: Vec::new(),
        motionloom_enabled: false,
        motionloom_script: owned(""),
    };
    proof {
        assert(l@.brightness_keyframes =~= seq![]);
        assert(l@.contrast_keyframes =~= seq![]);
        assert(l@.saturation_keyframes =~= seq![]);
        assert(l@.blur_keyframes =~= seq![]);
    }
    l
}

impl TimelineView {
    /// The timeline with one more layer.
    #[verifier::opaque]
    pub open spec fn with_layer(self, l: LayerEffectClipView) -> TimelineView {
        TimelineView {
            layer_effect_clips: layers_in_order(self.layer_effect_clips.push(l)),
            ..self
        }
    }

    /// The timeline without a layer, and none selected.
    #[verifier::opaque]
    pub open spec fn without_layer(self, id: u64) -> TimelineView {
        TimelineView {
            layer_effect_clips: self.layer_effect_clips.filter(
                |l: LayerEffectClipView| l.id != id,
            ),
            selected_layer_effect_clip_id: None,
            ..self
        }
    }
}

impl Timeline {
    fn add_layer(&mut self, l: LayerEffectClip)
        ensures
            final(self)@ == old(self)@.with_layer(l@),
    {
        reveal(TimelineView::with_layer);
        let ghost before = self.layer_effect_clips@;
        self.layer_effect_clips.push(l);
        assert(views(self.layer_effect_clips@) =~= views(before).push(l@));
        sort_layers(&mut self.layer_effect_clips);
    }

    fn drop_layer(&mut self, id: u64)
        ensures
            final(self)@ == old(self)@.without_layer(id),
    {
        reveal(TimelineView::without_layer);
        let ghost before = self.layer_effect_clips@;
        let ghost p = |l: LayerEffectClip| l.id != id;
        let keep = |l: &LayerEffectClip| -> (yes: bool)
            ensures
                yes == (l.id != id),
        {
            l.id != id
        };
        retain_by(&mut self.layer_effect_clips, keep, Ghost(p));
        proof {
            lemma_filter_views(before, p, |l: LayerEffectClipView| l.id != id);
        }
        self.selected_layer_effect_clip_id = None;
    }
}

impl StateView {
    /// The state with a layer selected and nothing else, if it is there.
    pub open spec fn layer_chosen(self, id: u64) -> StateView {
        if layer_place(self.timeline.layer_effect_clips, id)
            < self.timeline.layer_effect_clips.len() {
            StateView {
                timeline: TimelineView {
                    selected_layer_effect_clip_id: Some(id),
                    selected_semantic_clip_id: None,
                    ..self.timeline
                },
                selection: SelectionView::nothing(),
                ..self
            }
        } else {
            StateView {
                timeline: TimelineView { selected_layer_effect_clip_id: None, ..self.timeline },
                ..self
            }
        }
    }

    /// The state with one more layer with the next id, which is selected and nothing else.
    pub open spec fn with_chosen_layer(self, l: LayerEffectClipView) -> StateView {
        StateView {
            timeline: self.timeline.with_layer(l),
            next_clip_id: next_number(self.next_clip_id),
            ..self
        }.layer_chosen(self.next_clip_id)
    }

    /// The state with one more video track.
    pub open spec fn video_track_added(self) -> StateView {
        let s = self.saved(false);
        StateView {
            timeline: TimelineView {
                video_tracks: s.timeline.video_tracks.push(
                    VideoTrackView {
                        name: "V"@ + decimal((s.timeline.video_tracks.len() + 2) as int),
                        clips: Seq::empty(),
                    },
                ),
                ..s.timeline
            },
            ..s
        }
    }

    /// The state with a new layer on the topmost video track. One is added where there is none,
    /// which is then what can be taken back.
    #[verifier::opaque]
    pub open spec fn with_new_layer(self) -> StateView {
        let s = if self.timeline.video_tracks.len() == 0 {
            self.video_track_added()
        } else {
            self.saved(false)
        };
        let top = if s.timeline.video_tracks.len() == 0 {
            0
        } else {
            s.timeline.video_tracks.len() - 1
        };
        s.with_chosen_layer(new_layer(s.next_clip_id, top as usize))
    }

    /// The state with a copy of a layer, on a track that is there.
    #[verifier::opaque]
    pub open spec fn layer_duplicated(self, at: int, new_start: int) -> StateView {
        let s = self.saved(false);
        let base = s.timeline.layer_effect_clips[at];
        s.with_chosen_layer(
            LayerEffectClipView {
                id: s.next_clip_id,
                start: new_start,
                track_index: least(base.track_index as int, s.timeline.video_tracks.len() - 1) as usize,
                ..base
            },
        )
    }
}

impl GlobalState {
    /// Selects no layer.
    pub fn clear_layer_effect_clip_selection(&mut self)
        ensures
            final(self)@ == (StateView {
                timeline: TimelineView {
                    selected_layer_effect_clip_id: None,
                    ..old(self)@.timeline
                },
                ..old(self)@
            }),
    {
        self.timeline.selected_layer_effect_clip_id = None;
    }

    /// Selects a layer and nothing else; no layer where it is not there.
    pub fn select_layer_effect_clip(&mut self, clip_id: u64)
        ensures
            final(self)@ == old(self)@.layer_chosen(clip_id),
    {
        if find_layer(&self.timeline.layer_effect_clips, clip_id)
            >= self.timeline.layer_effect_clips.len() {
            self.timeline.selected_layer_effect_clip_id = None;
            return;
        }
        self.timeline.selected_layer_effect_clip_id = Some(clip_id);
        self.timeline.selected_semantic_clip_id = None;
        self.selection.clear();
    }

    fn add_chosen_layer(&mut self, l: LayerEffectClip)
        ensures
            final(self)@ == old(self)@.with_chosen_layer(l@),
    {
        let id = take_id(&mut self.next_clip_id);
        self.timeline.add_layer(l);
        self.select_layer_effect_clip(id);
    }

    /// Adds a layer to the topmost video track.
    pub fn add_layer_effect_clip_on_top_video_track(&mut self)
        requires
            old(self)@.timeline.video_tracks.len() + 2 <= usize::MAX,
        ensures
            final(self)@ == old(self)@.with_new_layer(),
    {
        reveal(StateView::with_new_layer);
        if self.timeline.video_tracks.len() == 0 {
            self.add_new_video_track();
        } else {
            self.save_for_undo();
        }
        let n: usize = self.timeline.video_tracks.len();
        let top: usize = if n == 0 {
            0
        } else {
            n - 1
        };
        let l = make_layer(self.next_clip_id, top);
        self.add_chosen_layer(l);
    }

    /// Removes the selected layer. Says whether there was one.
    pub fn remove_selected_layer_effect_clip(&mut self) -> (done: bool)
        ensures
            done == old(self)@.timeline.selected_layer_id() is Some,
            final(self)@ == match old(self)@.timeline.selected_layer_id() {
                Some(id) => {
                    let s = old(self)@.saved(false);
                    StateView { timeline: s.timeline.without_layer(id), ..s }
                },
                None => old(self)@,
            },
    {
        match self.selected_layer_effect_clip_id() {
            Some(id) => {
                self.save_for_undo();
                self.timeline.drop_layer(id);
                true
            },
            None => false,
        }
    }

    /// Copies a layer. Says whether it is there and there is a video track for it.
    pub fn duplicate_layer_effect_clip_at(&mut self, clip_id: u64, new_start: Duration) -> (done:
        bool)
        ensures
            ({
                let t = old(self)@.timeline;
                let at = layer_place(t.layer_effect_clips, clip_id);
                &&& done == (at < t.layer_effect_clips.len() && t.video_tracks.len() > 0)
                &&& final(self)@ == if done {
                    old(self)@.layer_duplicated(at, new_start@)
                } else {
                    old(self)@
                }
            }),
    {
        reveal(StateView::layer_duplicated);
        let at = find_layer(&self.timeline.layer_effect_clips, clip_id);
        if at >= self.timeline.layer_effect_clips.len() || self.timeline.video_tracks.len() == 0 {
            return false;
        }
        let mut copy = self.timeline.layer_effect_clips[at].clone();
        self.save_for_undo();
        copy.id = self.next_clip_id;
        copy.start = new_start;
        let last: usize = self.timeline.video_tracks.len() - 1;
        if copy.track_index > last {
            copy.track_index = last;
        }
        self.add_chosen_layer(copy);
        true
    }

    /// Copies the selected layer behind it, at least a second later. Says whether it did.
    pub fn duplicate_selected_layer_effect_clip(&mut self) -> (done: bool)
        ensures
            match old(self)@.timeline.selected_layer_id() {
                Some(id) => {
                    let t = old(self)@.timeline;
                    let l = t.layer(id);
                    &&& done == (t.video_tracks.len() > 0)
                    &&& final(self)@ == if done {
                        old(self)@.layer_duplicated(
                            layer_place(t.layer_effect_clips, id),
                            time_sum(l.start, greatest(l.duration, 1_000_000_000)),
                        )
                    } else {
                        old(self)@
                    }
                },
                None => !done && final(self)@ == old(self)@,
            },
    {
        match self.timeline.find_selected_layer() {
            Some(at) => {
                let l = &self.timeline.layer_effect_clips[at];
                let id = l.id;
                let step = l.duration.max(Duration { nanos: 1_000_000_000 });
                let start = l.start.saturating_add(step);
                self.duplicate_layer_effect_clip_at(id, start)
            },
            None => false,
        }
    }

    /// Moves a layer, also to another track that is there. Says whether it is there.
    pub fn move_layer_effect_clip(
        &mut self,
        clip_id: u64,
        new_start: Duration,
        new_track_index: Option<usize>,
    ) -> (done: bool)
        ensures
            done == (layer_place(old(self)@.timeline.layer_effect_clips, clip_id) < old(
                self,
            )@.timeline.layer_effect_clips.len()),
            final(self)@ == if done {
                let t = old(self)@.timeline.with_layer_edit(
                    clip_id,
                    LayerEditView::Place { start: new_start@, track: new_track_index },
                );
                StateView {
                    timeline: TimelineView {
                        layer_effect_clips: layers_in_order(t.layer_effect_clips),
                        ..t
                    },
                    ..old(self)@
                }
            } else {
                old(self)@
            },
    {
        if find_layer(&self.timeline.layer_effect_clips, clip_id)
            >= self.timeline.layer_effect_clips.len() {
            return false;
        }
        let e = LayerEdit::Place { start: new_start, track: new_track_index };
        self.timeline.edit_layer(clip_id, &e);
        sort_layers(&mut self.timeline.layer_effect_clips);
        true
    }

    /// Makes a layer longer or shorter. Says whether it is there.
    pub fn resize_layer_effect_clip(&mut self, clip_id: u64, new_duration: Duration) -> (done: bool)
        ensures
            done == (layer_place(old(self)@.timeline.layer_effect_clips, clip_id) < old(
                self,
            )@.timeline.layer_effect_clips.len()),
            final(self)@ == if done {
                StateView {
                    timeline: old(self)@.timeline.with_layer_edit(
                        clip_id,
                        LayerEditView::Length(new_duration@),
                    ),
                    ..old(self)@
                }
            } else {
                old(self)@
            },
    {
        if find_layer(&self.timeline.layer_effect_clips, clip_id)
            >= self.timeline.layer_effect_clips.len() {
            return false;
        }
        let e = LayerEdit::Length(new_duration);
        self.timeline.edit_layer(clip_id, &e);
        true
    }
}

// ---------------------------------------------------------------------------
// What layers do at a time
// ---------------------------------------------------------------------------

/// The largest of the values of the first `n` layers that are shown at a time, and one before.
pub open spec fn largest_shown(
    layers: Seq<LayerEffectClipView>,
    values: Seq<Option<Scalar>>,
    t: int,
    n: int,
    before: Option<Scalar>,
) -> Option<Scalar>
    decreases n,
{
    if n <= 0 {
        before
    } else {
        let front = largest_shown(layers, values, t, n - 1, before);
        match values[n - 1] {
            Some(v) if layers[n - 1].is_shown(t) => Some(
                match front {
                    Some(f) => f.larger(v),
                    None => v,
                },
            ),
            _ => front,
        }
    }
}

/// The smallest of the values of the first `n` layers that are shown at a time, each brought
/// between 0 and 1, and 1.
pub open spec fn smallest_shown(
    layers: Seq<LayerEffectClipView>,
    values: Seq<Option<Scalar>>,
    t: int,
    n: int,
) -> Scalar
    decreases n,
{
    if n <= 0 {
        Scalar { bits: ONE }
    } else {
        let front = smallest_shown(layers, values, t, n - 1);
        match values[n - 1] {
            Some(v) if layers[n - 1].is_shown(t) => front.smaller(share(v)),
            _ => front,
        }
    }
}

fn find_largest_shown(
    layers: &Vec<LayerEffectClip>,
    values: &Vec<Option<Scalar>>,
    t: Duration,
    before: Option<Scalar>,
) -> (s: Option<Scalar>)
    requires
        values.len() == layers.len(),
    ensures
        s == largest_shown(views(layers@), values@, t@, layers.len() as int, before),
{
    let mut s = before;
    let mut i: usize = 0;
    while i < layers.len()
        invariant
            i <= layers.len(),
            values.len() == layers.len(),
            s == largest_shown(views(layers@), values@, t@, i as int, before),
        decreases layers.len() - i,
    {
        if layers[i].shows_at(t) {
            if let Some(v) = values[i] {
                s =
                Some(
                    match s {
                        Some(f) => f.max(v),
                        None => v,
                    },
                );
            }
        }
        i += 1;
    }
    s
}

fn find_smallest_shown(
    layers: &Vec<LayerEffectClip>,
    values: &Vec<Option<Scalar>>,
    t: Duration,
) -> (s: Scalar)
    requires
        values.len() == layers.len(),
    ensures
        s == smallest_shown(views(layers@), values@, t@, layers.len() as int),
{
    let mut s = Scalar { bits: ONE };
    let mut i: usize = 0;
    while i < layers.len()
        invariant
            i <= layers.len(),
            values.len() == layers.len(),
            s == smallest_shown(views(layers@), values@, t@, i as int),
        decreases layers.len() - i,
    {
        if layers[i].shows_at(t) {
            if let Some(v) = values[i] {
                s = s.min(v.clamp(Scalar { bits: ZERO }, Scalar { bits: ONE }));
            }
        }
        i += 1;
    }
    s
}

/// Whether one of the layers is shown at a time.
pub open spec fn some_layer_shown(layers: Seq<LayerEffectClipView>, t: int) -> bool {
    exists|i: int| 0 <= i < layers.len() && (#[trigger] layers[i]).is_shown(t)
}

fn is_some_layer_shown(layers: &Vec<LayerEffectClip>, t: Duration) -> (yes: bool)
    ensures
        yes == some_layer_shown(views(layers@), t@),
{
    let mut i: usize = 0;
    while i < layers.len()
        invariant
            i <= layers.len(),
            forall|j: int| 0 <= j < i ==> !(#[trigger] views(layers@)[j]).is_shown(t@),
        decreases layers.len() - i,
    {
        if layers[i].shows_at(t) {
            assert(views(layers@)[i as int].is_shown(t@));
            return true;
        }
        i += 1;
    }
    false
}

/// The strongest of the overlays of the first `n` layers that are shown at a time; the last
/// number of each is its strength, and one without strength does not count.
pub open spec fn strongest_overlay(
    layers: Seq<LayerEffectClipView>,
    overlays: Seq<Option<(Scalar, Scalar, Scalar, Scalar)>>,
    t: int,
    n: int,
) -> (Scalar, Scalar, Scalar, Scalar)
    decreases n,
{
    let nothing = Scalar { bits: ZERO };
    if n <= 0 {
        (nothing, nothing, nothing, nothing)
    } else {
        let front = strongest_overlay(layers, overlays, t, n - 1);
        match overlays[n - 1] {
            Some(o) if layers[n - 1].is_shown(t) && front.3.below(o.3) => o,
            _ => front,
        }
    }
}

impl GlobalState {
    /// What a layer adjusts at a time; between two keyframes its adjustments are those in
    /// `on_lines`. A layer of which nothing is switched on counts with the adjustments for all.
    pub fn layer_effects_at(
        &self,
        index: usize,
        timeline_time: Duration,
        on_lines: LayerColorBlurEffects,
    ) -> (effects: Option<LayerColorBlurEffects>)
        requires
            index < self@.timeline.layer_effect_clips.len(),
        ensures
            ({
                let l = self@.timeline.layer_effect_clips[index as int];
                let common = self@.timeline.layer_color_blur_effects;
                effects == match l.local_time(timeline_time@) {
                    None => None,
                    Some(t) => Some(
                        if !l.adjusts() && !common.changes_nothing() {
                            common
                        } else {
                            LayerColorBlurEffects {
                                brightness: l.value_at(
                                    LayerChannel::Brightness,
                                    t,
                                    on_lines.brightness,
                                ),
                                contrast: l.value_at(LayerChannel::Contrast, t, on_lines.contrast),
                                saturation: l.value_at(
                                    LayerChannel::Saturation,
                                    t,
                                    on_lines.saturation,
                                ),
                                blur_sigma: l.value_at(LayerChannel::Blur, t, on_lines.blur_sigma),
                            }.in_range()
                        },
                    ),
                }
            }),
    {
        let l = &self.timeline.layer_effect_clips[index];
        let common = self.timeline.layer_color_blur_effects;
        match l.local_time(timeline_time) {
            None => None,
            Some(t) => if !l.has_any_effect_enabled() && !common.is_identity() {
                Some(common)
            } else {
                let own = LayerColorBlurEffects {
                    brightness: l.value_at(LayerChannel::Brightness, t, on_lines.brightness),
                    contrast: l.value_at(LayerChannel::Contrast, t, on_lines.contrast),
                    saturation: l.value_at(LayerChannel::Saturation, t, on_lines.saturation),
                    blur_sigma: l.value_at(LayerChannel::Blur, t, on_lines.blur_sigma),
                };
                Some(own.normalized())
            },
        }
    }

    /// What the layers do to the opacity at a time: the strength of the strongest one that is
    /// shown and the smallest of their opacities, multiplied by `times`; 1 where none is shown.
    pub fn layer_opacity_factor_at<F: Fn(Scalar, Scalar) -> Scalar>(
        &self,
        timeline_time: Duration,
        strengths: &Vec<Option<Scalar>>,
        opacities: &Vec<Option<Scalar>>,
        times: F,
    ) -> (factor: Scalar)
        requires
            strengths.len() == self@.timeline.layer_effect_clips.len(),
            opacities.len() == self@.timeline.layer_effect_clips.len(),
            forall|a: Scalar, b: Scalar| #[trigger] call_requires(times, (a, b)),
        ensures
            ({
                let layers = self@.timeline.layer_effect_clips;
                let n = layers.len() as int;
                let strength = largest_shown(
                    layers,
                    strengths@,
                    timeline_time@,
                    n,
                    Some(Scalar { bits: ZERO }),
                )->0;
                let opacity = smallest_shown(layers, opacities@, timeline_time@, n);
                if some_layer_shown(layers, timeline_time@) {
                    exists|p: Scalar| #[trigger] call_ensures(times, (strength, opacity), p)
                        && factor == share(p)
                } else {
                    factor == (Scalar { bits: ONE })
                }
            }),
    {
        let layers = &self.timeline.layer_effect_clips;
        if !is_some_layer_shown(layers, timeline_time) {
            return Scalar { bits: ONE };
        }
        proof {
            lemma_largest_some(
                views(layers@),
                strengths@,
                timeline_time@,
                layers.len() as int,
                Scalar { bits: ZERO },
            );
        }
        let nothing = Scalar { bits: ZERO };
        let strength = match find_largest_shown(layers, strengths, timeline_time, Some(nothing)) {
            Some(s) => s,
            None => nothing,
        };
        let opacity = find_smallest_shown(layers, opacities, timeline_time);
        times(strength, opacity).clamp(Scalar { bits: ZERO }, Scalar { bits: ONE })
    }

    /// The strongest of the mixes of the layers that are shown at a time.
    pub fn layer_lut_mix_at(&self, timeline_time: Duration, mixes: &Vec<Option<Scalar>>) -> (mix:
        Scalar)
        requires
            mixes.len() == self@.timeline.layer_effect_clips.len(),
        ensures
            mix == share(
                largest_shown(
                    self@.timeline.layer_effect_clips,
                    mixes@,
                    timeline_time@,
                    self@.timeline.layer_effect_clips.len() as int,
                    Some(Scalar { bits: ZERO }),
                )->0,
            ),
    {
        let layers = &self.timeline.layer_effect_clips;
        proof {
            lemma_largest_some(
                views(layers@),
                mixes@,
                timeline_time@,
                layers.len() as int,
                Scalar { bits: ZERO },
            );
        }
        let nothing = Scalar { bits: ZERO };
        let mix = match find_largest_shown(layers, mixes, timeline_time, Some(nothing)) {
            Some(s) => s,
            None => nothing,
        };
        mix.clamp(Scalar { bits: ZERO }, Scalar { bits: ONE })
    }

    /// The strongest of the dissolves of the layers that are shown at a time, if there is one.
    pub fn layer_transition_dissolve_mix_at(
        &self,
        timeline_time: Duration,
        mixes: &Vec<Option<Scalar>>,
    ) -> (mix: Option<Scalar>)
        requires
            mixes.len() == self@.timeline.layer_effect_clips.len(),
        ensures
            mix == match largest_shown(
                self@.timeline.layer_effect_clips,
                mixes@,
                timeline_time@,
                self@.timeline.layer_effect_clips.len() as int,
                None,
            ) {
                Some(s) => Some(share(s)),
                None => None,
            },
    {
        match find_largest_shown(&self.timeline.layer_effect_clips, mixes, timeline_time, None) {
            Some(s) => Some(s.clamp(Scalar { bits: ZERO }, Scalar { bits: ONE })),
            None => None,
        }
    }

    /// The strongest of the overlays of the layers that are shown at a time.
    pub fn layer_hsla_overlay_at(
        &self,
        timeline_time: Duration,
        overlays: &Vec<Option<(Scalar, Scalar, Scalar, Scalar)>>,
    ) -> (best: (Scalar, Scalar, Scalar, Scalar))
        requires
            overlays.len() == self@.timeline.layer_effect_clips.len(),
        ensures
            best == strongest_overlay(
                self@.timeline.layer_effect_clips,
                overlays@,
                timeline_time@,
                self@.timeline.layer_effect_clips.len() as int,
            ),
    {
        let layers = &self.timeline.layer_effect_clips;
        let nothing = Scalar { bits: ZERO };
        let mut best = (nothing, nothing, nothing, nothing);
        let mut i: usize = 0;
        while i < layers.len()
            invariant
                i <= layers.len(),
                overlays.len() == layers.len(),
                layers == &self.timeline.layer_effect_clips,
                best == strongest_overlay(
                    self@.timeline.layer_effect_clips,
                    overlays@,
                    timeline_time@,
                    i as int,
                ),
            decreases layers.len() - i,
        {
            if layers[i].shows_at(timeline_time) {
                if let Some(o) = overlays[i] {
                    if best.3.lt(o.3) {
                        best = o;
                    }
                }
            }
            i += 1;
        }
        best
    }
}

proof fn lemma_largest_some(
    layers: Seq<LayerEffectClipView>,
    values: Seq<Option<Scalar>>,
    t: int,
    n: int,
    before: Scalar,
)
    ensures
        largest_shown(layers, values, t, n, Some(before)) is Some,
    decreases n,
{
    if n > 0 {
        lemma_largest_some(layers, values, t, n - 1, before);
    }
}

} // verus!
