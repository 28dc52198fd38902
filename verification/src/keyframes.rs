//! Numbers of a clip that change over its time.
use crate::clip::{Clip, ClipView, KeyframesView};
use crate::clip_effects::EffectKind;
use crate::effect::ScalarKeyframe;
use crate::lists::{first, position_by};
use crate::modes::ClipKeyframeChannel;
use crate::order::{ordered, sort_by_time, Timed};
use crate::scalar::Scalar;
use crate::time::{least, Duration};
use vstd::prelude::*;

verus! {

/// How far from a keyframe a time may be to mean it: 33 milliseconds.
pub const KEYFRAME_REACH: u128 = 33_000_000;

impl Timed for ScalarKeyframe {
    open spec fn at(&self) -> int {
        self.time@
    }

    fn time(&self) -> (t: Duration) {
        self.time
    }
}

/// Whether the time means the keyframe.
pub open spec fn is_near(k: ScalarKeyframe, t: int, reach: int) -> bool {
    -reach <= k.time@ - t <= reach
}

/// The place of the first keyframe that the time means.
pub open spec fn key_place(keys: Seq<ScalarKeyframe>, t: int, reach: int) -> int {
    first(keys, |k: ScalarKeyframe| is_near(k, t, reach))
}

/// The keyframes with the value at the time: that of the keyframe that is meant, or
/// a new keyframe, in order of time.
pub open spec fn keys_with(
    keys: Seq<ScalarKeyframe>,
    t: int,
    value: Scalar,
    reach: int,
) -> Seq<ScalarKeyframe> {
    let at = key_place(keys, t, reach);
    if at < keys.len() {
        keys.update(at, ScalarKeyframe { time: keys[at].time, value })
    } else {
        ordered(
            keys.push(ScalarKeyframe { time: Duration::of(t), value }),
            |k: ScalarKeyframe| k.at(),
        )
    }
}

/// The place of the keyframe that the time means.
pub fn index_at(keys: &Vec<ScalarKeyframe>, t: Duration, reach: Duration) -> (at: Option<usize>)
    ensures
        at is Some <==> key_place(keys@, t@, reach@) < keys.len(),
        at is Some ==> at->0 == key_place(keys@, t@, reach@),
{
    let test = |k: &ScalarKeyframe| -> (yes: bool)
        ensures
            yes == is_near(*k, t@, reach@),
    {
        k.time.abs_diff(t).nanos <= reach.nanos
    };
    let at = position_by(keys, test, Ghost(|k: ScalarKeyframe| is_near(k, t@, reach@)));
    if at < keys.len() {
        Some(at)
    } else {
        None
    }
}

/// Sets the value at a time: that of the keyframe that is meant, or of a new one.
pub fn set_or_insert(keys: &mut Vec<ScalarKeyframe>, t: Duration, value: Scalar, reach: Duration)
    ensures
        final(keys)@ == keys_with(old(keys)@, t@, value, reach@),
{
    match index_at(keys, t, reach) {
        Some(at) => {
            let time = keys[at].time;
            keys.set(at, ScalarKeyframe { time, value });
        },
        None => {
            keys.push(ScalarKeyframe { time: t, value });
            sort_by_time(keys);
        },
    }
}

/// How a value is found between keyframes.
#[derive(Clone, Copy, Debug, PartialEq, Eq, Structural)]
pub enum Sample {
    /// The value itself.
    At(Scalar),
    /// On the straight line from one keyframe to the next.
    Between { from: ScalarKeyframe, to: ScalarKeyframe },
}

/// The keyframes around the time, from the `i`th on.
pub open spec fn span_from(
    keys: Seq<ScalarKeyframe>,
    t: int,
    fallback: Scalar,
    i: int,
) -> Sample
    decreases keys.len() - i,
{
    if i + 1 >= keys.len() {
        Sample::At(fallback)
    } else if keys[i].time@ <= t <= keys[i + 1].time@ {
        Sample::Between { from: keys[i], to: keys[i + 1] }
    } else {
        span_from(keys, t, fallback, i + 1)
    }
}

/// The value at a time: `fallback` without keyframes, the first value before the
/// first keyframe, the last one after the last, else on the line between the two
/// around it.
pub open spec fn sampled(keys: Seq<ScalarKeyframe>, t: int, fallback: Scalar) -> Sample {
    if keys.len() == 0 {
        Sample::At(fallback)
    } else if t <= keys[0].time@ {
        Sample::At(keys[0].value)
    } else if t >= keys.last().time@ {
        Sample::At(keys.last().value)
    } else {
        span_from(keys, t, fallback, 0)
    }
}

/// How the value at a time is found.
pub fn sample_linear(keys: &Vec<ScalarKeyframe>, t: Duration, fallback: Scalar) -> (sample: Sample)
    ensures
        sample == sampled(keys@, t@, fallback),
{
    if keys.len() == 0 {
        return Sample::At(fallback);
    }
    if t.nanos <= keys[0].time.nanos {
        return Sample::At(keys[0].value);
    }
    let last = keys[keys.len() - 1];
    if t.nanos >= last.time.nanos {
        return Sample::At(last.value);
    }
    let mut i: usize = 0;
    while i + 1 < keys.len()
        invariant
            0 <= i < keys.len(),
            keys@[0].time@ < t@ < keys@.last().time@,
            span_from(keys@, t@, fallback, 0) == span_from(keys@, t@, fallback, i as int),
        decreases keys.len() - i,
    {
        let from = keys[i];
        let to = keys[i + 1];
        if t.nanos >= from.time.nanos && t.nanos <= to.time.nanos {
            return Sample::Between { from, to };
        }
        i = i + 1;
    }
    Sample::At(fallback)
}

/// Every time between the first and the last keyframe has a keyframe on either side,
/// so the fallback is used only where there are no keyframes.
pub proof fn keys_need_no_fallback(
    keys: Seq<ScalarKeyframe>,
    t: int,
    a: Scalar,
    b: Scalar,
)
    requires
        keys.len() > 0,
    ensures
        sampled(keys, t, a) == sampled(keys, t, b),
{
    if keys[0].time@ < t < keys.last().time@ {
        lemma_span(keys, t, a, b, 0);
    }
}

proof fn lemma_span(keys: Seq<ScalarKeyframe>, t: int, a: Scalar, b: Scalar, i: int)
    requires
        0 <= i < keys.len(),
        keys[i].time@ <= t < keys.last().time@,
    ensures
        span_from(keys, t, a, i) == span_from(keys, t, b, i),
    decreases keys.len() - i,
{
    if i + 1 < keys.len() && !(keys[i].time@ <= t <= keys[i + 1].time@) {
        lemma_span(keys, t, a, b, i + 1);
    }
}

impl KeyframesView {
    /// The keyframes of a channel.
    pub open spec fn of(self, channel: ClipKeyframeChannel) -> Seq<ScalarKeyframe> {
        match channel {
            ClipKeyframeChannel::PosX => self.pos_x,
            ClipKeyframeChannel::PosY => self.pos_y,
            ClipKeyframeChannel::Scale => self.scale,
            ClipKeyframeChannel::Rotation => self.rotation,
            ClipKeyframeChannel::Brightness => self.brightness,
            ClipKeyframeChannel::Contrast => self.contrast,
            ClipKeyframeChannel::Saturation => self.saturation,
            ClipKeyframeChannel::Opacity => self.opacity,
            ClipKeyframeChannel::Blur => self.blur,
        }
    }

    /// The keyframes with those of a channel replaced.
    pub open spec fn with(self, channel: ClipKeyframeChannel, keys: Seq<ScalarKeyframe>) -> KeyframesView {
        match channel {
            ClipKeyframeChannel::PosX => KeyframesView { pos_x: keys, ..self },
            ClipKeyframeChannel::PosY => KeyframesView { pos_y: keys, ..self },
            ClipKeyframeChannel::Scale => KeyframesView { scale: keys, ..self },
            ClipKeyframeChannel::Rotation => KeyframesView { rotation: keys, ..self },
            ClipKeyframeChannel::Brightness => KeyframesView { brightness: keys, ..self },
            ClipKeyframeChannel::Contrast => KeyframesView { contrast: keys, ..self },
            ClipKeyframeChannel::Saturation => KeyframesView { saturation: keys, ..self },
            ClipKeyframeChannel::Opacity => KeyframesView { opacity: keys, ..self },
            ClipKeyframeChannel::Blur => KeyframesView { blur: keys, ..self },
        }
    }
}

impl ClipView {
    /// The value of a channel where it does not change.
    pub open spec fn base_value(self, channel: ClipKeyframeChannel) -> Scalar {
        match channel {
            ClipKeyframeChannel::PosX => self.effect(EffectKind::Transform)->Transform_position_x,
            ClipKeyframeChannel::PosY => self.effect(EffectKind::Transform)->Transform_position_y,
            ClipKeyframeChannel::Scale => self.effect(EffectKind::Transform)->Transform_scale,
            ClipKeyframeChannel::Rotation => self.effect(EffectKind::Transform)->Transform_rotation_deg,
            ClipKeyframeChannel::Brightness => self.effect(EffectKind::ColorCorrection)->ColorCorrection_brightness,
            ClipKeyframeChannel::Contrast => self.effect(EffectKind::ColorCorrection)->ColorCorrection_contrast,
            ClipKeyframeChannel::Saturation => self.effect(EffectKind::ColorCorrection)->ColorCorrection_saturation,
            ClipKeyframeChannel::Opacity => self.effect(EffectKind::Opacity)->Opacity_alpha,
            ClipKeyframeChannel::Blur => self.effect(EffectKind::GaussianBlur)->GaussianBlur_sigma,
        }
    }

    /// The clip with the value of a channel at a time set, at the latest at its end.
    pub open spec fn with_key(self, channel: ClipKeyframeChannel, t: int, value: Scalar) -> ClipView {
        ClipView {
            keyframes: self.keyframes.with(
                channel,
                keys_with(
                    self.keyframes.of(channel),
                    least(t, self.duration),
                    value,
                    KEYFRAME_REACH as int,
                ),
            ),
            ..self
        }
    }

    /// The value of a channel at a time, at the latest at the clip's end.
    pub open spec fn sample(self, channel: ClipKeyframeChannel, t: int) -> Sample {
        sampled(self.keyframes.of(channel), least(t, self.duration), self.base_value(channel))
    }

    /// Whether the time means a keyframe of the channel.
    pub open spec fn has_key_at(self, channel: ClipKeyframeChannel, t: int) -> bool {
        key_place(self.keyframes.of(channel), t, KEYFRAME_REACH as int) < self.keyframes.of(
            channel,
        ).len()
    }
}

impl Clip {
    /// Sets the place from left to right at a time, at the latest at the clip's end.
    pub fn set_pos_x_keyframe(&mut self, t: Duration, value: Scalar)
        ensures
            final(self)@ == old(self)@.with_key(ClipKeyframeChannel::PosX, t@, value),
    {
        let t = t.min(self.duration);
        set_or_insert(&mut self.pos_x_keyframes, t, value, Duration { nanos: KEYFRAME_REACH });
    }

    /// The place of the keyframe of the place from left to right that the time means.
    pub fn pos_x_keyframe_index_at(&self, t: Duration) -> (at: Option<usize>)
        ensures
            at is Some <==> self@.has_key_at(ClipKeyframeChannel::PosX, t@),
            at is Some ==> at->0 == key_place(self@.keyframes.pos_x, t@, KEYFRAME_REACH as int),
    {
        index_at(&self.pos_x_keyframes, t, Duration { nanos: KEYFRAME_REACH })
    }

    /// The place from left to right at a time, at the latest at the clip's end.
    pub fn sample_pos_x(&self, t: Duration) -> (sample: Sample)
        ensures
            sample == self@.sample(ClipKeyframeChannel::PosX, t@),
    {
        let t = t.min(self.duration);
        sample_linear(&self.pos_x_keyframes, t, self.get_pos_x())
    }

    /// Sets the place from top to bottom at a time, at the latest at the clip's end.
    pub fn set_pos_y_keyframe(&mut self, t: Duration, value: Scalar)
        ensures
            final(self)@ == old(self)@.with_key(ClipKeyframeChannel::PosY, t@, value),
    {
        let t = t.min(self.duration);
        set_or_insert(&mut self.pos_y_keyframes, t, value, Duration { nanos: KEYFRAME_REACH });
    }

    /// The place of the keyframe of the place from top to bottom that the time means.
    pub fn pos_y_keyframe_index_at(&self, t: Duration) -> (at: Option<usize>)
        ensures
            at is Some <==> self@.has_key_at(ClipKeyframeChannel::PosY, t@),
            at is Some ==> at->0 == key_place(self@.keyframes.pos_y, t@, KEYFRAME_REACH as int),
    {
        index_at(&self.pos_y_keyframes, t, Duration { nanos: KEYFRAME_REACH })
    }

    /// The place from top to bottom at a time, at the latest at the clip's end.
    pub fn sample_pos_y(&self, t: Duration) -> (sample: Sample)
        ensures
            sample == self@.sample(ClipKeyframeChannel::PosY, t@),
    {
        let t = t.min(self.duration);
        sample_linear(&self.pos_y_keyframes, t, self.get_pos_y())
    }

    /// Sets the scale at a time, at the latest at the clip's end.
    pub fn set_scale_keyframe(&mut self, t: Duration, value: Scalar)
        ensures
            final(self)@ == old(self)@.with_key(ClipKeyframeChannel::Scale, t@, value),
    {
        let t = t.min(self.duration);
        set_or_insert(&mut self.scale_keyframes, t, value, Duration { nanos: KEYFRAME_REACH });
    }

    /// The place of the keyframe of the scale that the time means.
    pub fn scale_keyframe_index_at(&self, t: Duration) -> (at: Option<usize>)
        ensures
            at is Some <==> self@.has_key_at(ClipKeyframeChannel::Scale, t@),
            at is Some ==> at->0 == key_place(self@.keyframes.scale, t@, KEYFRAME_REACH as int),
    {
        index_at(&self.scale_keyframes, t, Duration { nanos: KEYFRAME_REACH })
    }

    /// The scale at a time, at the latest at the clip's end.
    pub fn sample_scale(&self, t: Duration) -> (sample: Sample)
        ensures
            sample == self@.sample(ClipKeyframeChannel::Scale, t@),
    {
        let t = t.min(self.duration);
        sample_linear(&self.scale_keyframes, t, self.get_scale())
    }

    /// Sets the rotation at a time, at the latest at the clip's end.
    pub fn set_rotation_keyframe(&mut self, t: Duration, value: Scalar)
        ensures
            final(self)@ == old(self)@.with_key(ClipKeyframeChannel::Rotation, t@, value),
    {
        let t = t.min(self.duration);
        set_or_insert(&mut self.rotation_keyframes, t, value, Duration { nanos: KEYFRAME_REACH });
    }

    /// The place of the keyframe of the rotation that the time means.
    pub fn rotation_keyframe_index_at(&self, t: Duration) -> (at: Option<usize>)
        ensures
            at is Some <==> self@.has_key_at(ClipKeyframeChannel::Rotation, t@),
            at is Some ==> at->0 == key_place(self@.keyframes.rotation, t@, KEYFRAME_REACH as int),
    {
        index_at(&self.rotation_keyframes, t, Duration { nanos: KEYFRAME_REACH })
    }

    /// The rotation at a time, at the latest at the clip's end.
    pub fn sample_rotation(&self, t: Duration) -> (sample: Sample)
        ensures
            sample == self@.sample(ClipKeyframeChannel::Rotation, t@),
    {
        let t = t.min(self.duration);
        sample_linear(&self.rotation_keyframes, t, self.get_rotation())
    }

    /// Sets the brightness at a time, at the latest at the clip's end.
    pub fn set_brightness_keyframe(&mut self, t: Duration, value: Scalar)
        ensures
            final(self)@ == old(self)@.with_key(ClipKeyframeChannel::Brightness, t@, value),
    {
        let t = t.min(self.duration);
        set_or_insert(&mut self.brightness_keyframes, t, value, Duration { nanos: KEYFRAME_REACH });
    }

    /// The place of the keyframe of the brightness that the time means.
    pub fn brightness_keyframe_index_at(&self, t: Duration) -> (at: Option<usize>)
        ensures
            at is Some <==> self@.has_key_at(ClipKeyframeChannel::Brightness, t@),
            at is Some ==> at->0 == key_place(self@.keyframes.brightness, t@, KEYFRAME_REACH as int),
    {
        index_at(&self.brightness_keyframes, t, Duration { nanos: KEYFRAME_REACH })
    }

    /// The brightness at a time, at the latest at the clip's end.
    pub fn sample_brightness(&self, t: Duration) -> (sample: Sample)
        ensures
            sample == self@.sample(ClipKeyframeChannel::Brightness, t@),
    {
        let t = t.min(self.duration);
        sample_linear(&self.brightness_keyframes, t, self.get_brightness())
    }

    /// Sets the contrast at a time, at the latest at the clip's end.
    pub fn set_contrast_keyframe(&mut self, t: Duration, value: Scalar)
        ensures
            final(self)@ == old(self)@.with_key(ClipKeyframeChannel::Contrast, t@, value),
    {
        let t = t.min(self.duration);
        set_or_insert(&mut self.contrast_keyframes, t, value, Duration { nanos: KEYFRAME_REACH });
    }

    /// The place of the keyframe of the contrast that the time means.
    pub fn contrast_keyframe_index_at(&self, t: Duration) -> (at: Option<usize>)
        ensures
            at is Some <==> self@.has_key_at(ClipKeyframeChannel::Contrast, t@),
            at is Some ==> at->0 == key_place(self@.keyframes.contrast, t@, KEYFRAME_REACH as int),
    {
        index_at(&self.contrast_keyframes, t, Duration { nanos: KEYFRAME_REACH })
    }

    /// The contrast at a time, at the latest at the clip's end.
    pub fn sample_contrast(&self, t: Duration) -> (sample: Sample)
        ensures
            sample == self@.sample(ClipKeyframeChannel::Contrast, t@),
    {
        let t = t.min(self.duration);
        sample_linear(&self.contrast_keyframes, t, self.get_contrast())
    }

    /// Sets the saturation at a time, at the latest at the clip's end.
    pub fn set_saturation_keyframe(&mut self, t: Duration, value: Scalar)
        ensures
            final(self)@ == old(self)@.with_key(ClipKeyframeChannel::Saturation, t@, value),
    {
        let t = t.min(self.duration);
        set_or_insert(&mut self.saturation_keyframes, t, value, Duration { nanos: KEYFRAME_REACH });
    }

    /// The place of the keyframe of the saturation that the time means.
    pub fn saturation_keyframe_index_at(&self, t: Duration) -> (at: Option<usize>)
        ensures
            at is Some <==> self@.has_key_at(ClipKeyframeChannel::Saturation, t@),
            at is Some ==> at->0 == key_place(self@.keyframes.saturation, t@, KEYFRAME_REACH as int),
    {
        index_at(&self.saturation_keyframes, t, Duration { nanos: KEYFRAME_REACH })
    }

    /// The saturation at a time, at the latest at the clip's end.
    pub fn sample_saturation(&self, t: Duration) -> (sample: Sample)
        ensures
            sample == self@.sample(ClipKeyframeChannel::Saturation, t@),
    {
        let t = t.min(self.duration);
        sample_linear(&self.saturation_keyframes, t, self.get_saturation())
    }

    /// Sets the opacity at a time, at the latest at the clip's end.
    pub fn set_opacity_keyframe(&mut self, t: Duration, value: Scalar)
        ensures
            final(self)@ == old(self)@.with_key(ClipKeyframeChannel::Opacity, t@, value),
    {
        let t = t.min(self.duration);
        set_or_insert(&mut self.opacity_keyframes, t, value, Duration { nanos: KEYFRAME_REACH });
    }

    /// The place of the keyframe of the opacity that the time means.
    pub fn opacity_keyframe_index_at(&self, t: Duration) -> (at: Option<usize>)
        ensures
            at is Some <==> self@.has_key_at(ClipKeyframeChannel::Opacity, t@),
            at is Some ==> at->0 == key_place(self@.keyframes.opacity, t@, KEYFRAME_REACH as int),
    {
        index_at(&self.opacity_keyframes, t, Duration { nanos: KEYFRAME_REACH })
    }

    /// The opacity at a time, at the latest at the clip's end.
    pub fn sample_opacity(&self, t: Duration) -> (sample: Sample)
        ensures
            sample == self@.sample(ClipKeyframeChannel::Opacity, t@),
    {
        let t = t.min(self.duration);
        sample_linear(&self.opacity_keyframes, t, self.get_opacity())
    }

    /// Sets the blur at a time, at the latest at the clip's end.
    pub fn set_blur_keyframe(&mut self, t: Duration, value: Scalar)
        ensures
            final(self)@ == old(self)@.with_key(ClipKeyframeChannel::Blur, t@, value),
    {
        let t = t.min(self.duration);
        set_or_insert(&mut self.blur_keyframes, t, value, Duration { nanos: KEYFRAME_REACH });
    }

    /// The place of the keyframe of the blur that the time means.
    pub fn blur_keyframe_index_at(&self, t: Duration) -> (at: Option<usize>)
        ensures
            at is Some <==> self@.has_key_at(ClipKeyframeChannel::Blur, t@),
            at is Some ==> at->0 == key_place(self@.keyframes.blur, t@, KEYFRAME_REACH as int),
    {
        index_at(&self.blur_keyframes, t, Duration { nanos: KEYFRAME_REACH })
    }

    /// The blur at a time, at the latest at the clip's end.
    pub fn sample_blur(&self, t: Duration) -> (sample: Sample)
        ensures
            sample == self@.sample(ClipKeyframeChannel::Blur, t@),
    {
        let t = t.min(self.duration);
        sample_linear(&self.blur_keyframes, t, self.get_blur_sigma())
    }

}

} // verus!
