//! The local mask layers of a clip.
use crate::clip::{Clip, ClipView};
use crate::clip_effects::{EffectKind, SIXTY_FOUR};
use crate::effect::{
    LocalMaskLayer, VideoEffect, MAX_LOCAL_MASK_LAYERS, MINUS_ONE, ONE, TWO, ZERO,
};
use crate::scalar::Scalar;
use crate::time::least;
use vstd::prelude::*;

verus! {

/// A number between 0 and 1.
pub open spec fn share(s: Scalar) -> Scalar {
    s.clamped(Scalar { bits: ZERO }, Scalar { bits: ONE })
}

fn to_share(s: Scalar) -> (r: Scalar)
    ensures
        r == share(s),
{
    s.clamp(Scalar { bits: ZERO }, Scalar { bits: ONE })
}

impl ClipView {
    /// The layer that stands for the clip's own mask effects where it has no layers.
    pub open spec fn legacy_layer(self) -> LocalMaskLayer {
        let m = self.effect(EffectKind::LocalMask);
        let a = self.effect(EffectKind::LocalMaskAdjust);
        LocalMaskLayer {
            enabled: m->LocalMask_enabled,
            center_x: m->LocalMask_center_x,
            center_y: m->LocalMask_center_y,
            radius: m->LocalMask_radius,
            feather: m->LocalMask_feather,
            strength: m->LocalMask_strength,
            brightness: a->LocalMaskAdjust_brightness,
            contrast: a->LocalMaskAdjust_contrast,
            saturation: a->LocalMaskAdjust_saturation,
            opacity: a->LocalMaskAdjust_opacity,
            blur_sigma: a->LocalMaskAdjust_blur_sigma,
        }
    }

    /// The place of the layer that is meant by an index: the last possible one where
    /// the index is past it.
    pub open spec fn layer_place(self, index: int) -> int {
        least(index, MAX_LOCAL_MASK_LAYERS - 1)
    }

    /// The layers with neutral ones added as far as the index asks.
    pub open spec fn layers_up_to(self, index: int) -> Seq<LocalMaskLayer> {
        let own = if self.local_mask_layers.len() == 0 {
            seq![self.legacy_layer()]
        } else {
            self.local_mask_layers
        };
        let wanted = self.layer_place(index) + 1;
        if own.len() >= wanted {
            own
        } else {
            own + Seq::new((wanted - own.len()) as nat, |i: int| LocalMaskLayer::neutral())
        }
    }

    /// The layer that is meant by an index.
    pub open spec fn layer(self, index: int) -> LocalMaskLayer {
        let layers = self.local_mask_layers;
        if layers.len() == 0 {
            if index == 0 {
                self.legacy_layer()
            } else {
                LocalMaskLayer::neutral()
            }
        } else if self.layer_place(index) < layers.len() {
            layers[self.layer_place(index)]
        } else {
            layers.last()
        }
    }

    /// All layers that are shown.
    pub open spec fn shown_layers(self) -> Seq<LocalMaskLayer> {
        if self.local_mask_layers.len() == 0 {
            seq![self.legacy_layer()]
        } else {
            self.local_mask_layers.take(
                least(self.local_mask_layers.len() as int, MAX_LOCAL_MASK_LAYERS as int),
            )
        }
    }

    /// The clip with the layer that is meant by an index replaced.
    pub open spec fn with_layer(self, index: int, layer: LocalMaskLayer) -> ClipView {
        let layers = self.layers_up_to(index);
        ClipView { local_mask_layers: layers.update(self.layer_place(index), layer), ..self }
    }

    /// The clip with another region of the layer that is meant by an index; all numbers
    /// lie between 0 and 1.
    pub open spec fn with_region(
        self,
        index: int,
        enabled: bool,
        center_x: Scalar,
        center_y: Scalar,
        radius: Scalar,
        feather: Scalar,
        strength: Scalar,
    ) -> ClipView {
        self.with_layer(
            index,
            LocalMaskLayer {
                enabled,
                center_x: share(center_x),
                center_y: share(center_y),
                radius: share(radius),
                feather: share(feather),
                strength: share(strength),
                ..self.layers_up_to(index)[self.layer_place(index)]
            },
        )
    }

    /// The clip with other adjustments of the layer that is meant by an index, each
    /// within its range.
    pub open spec fn with_adjust(
        self,
        index: int,
        brightness: Scalar,
        contrast: Scalar,
        saturation: Scalar,
        opacity: Scalar,
        blur_sigma: Scalar,
    ) -> ClipView {
        let zero = Scalar { bits: ZERO };
        let two = Scalar { bits: TWO };
        self.with_layer(
            index,
            LocalMaskLayer {
                brightness: brightness.clamped(Scalar { bits: MINUS_ONE }, Scalar { bits: ONE }),
                contrast: contrast.clamped(zero, two),
                saturation: saturation.clamped(zero, two),
                opacity: share(opacity),
                blur_sigma: blur_sigma.clamped(zero, Scalar { bits: SIXTY_FOUR }),
                ..self.layers_up_to(index)[self.layer_place(index)]
            },
        )
    }

    /// The clip with one more layer, if there may be one.
    pub open spec fn with_new_layer(self) -> ClipView {
        if self.local_mask_layers.len() >= MAX_LOCAL_MASK_LAYERS {
            self
        } else {
            ClipView {
                local_mask_layers: self.layers_up_to(0).push(LocalMaskLayer::neutral()),
                ..self
            }
        }
    }
}

impl Clip {
    fn legacy_layer(&self) -> (layer: LocalMaskLayer)
        ensures
            layer == self@.legacy_layer(),
    {
        let mut layer = LocalMaskLayer::default();
        if let VideoEffect::LocalMask { enabled, center_x, center_y, radius, feather, strength } =
            self.effect(EffectKind::LocalMask) {
            layer.enabled = enabled;
            layer.center_x = center_x;
            layer.center_y = center_y;
            layer.radius = radius;
            layer.feather = feather;
            layer.strength = strength;
        }
        if let VideoEffect::LocalMaskAdjust {
            brightness,
            contrast,
            saturation,
            opacity,
            blur_sigma,
        } = self.effect(EffectKind::LocalMaskAdjust) {
            layer.brightness = brightness;
            layer.contrast = contrast;
            layer.saturation = saturation;
            layer.opacity = opacity;
            layer.blur_sigma = blur_sigma;
        }
        layer
    }

    fn ensure_local_mask_layer(&mut self, layer_index: usize) -> (index: usize)
        ensures
            final(self)@ == (ClipView {
                local_mask_layers: old(self)@.layers_up_to(layer_index as int),
                ..old(self)@
            }),
            index == old(self)@.layer_place(layer_index as int),
            index < final(self)@.local_mask_layers.len(),
    {
        let index: usize = if layer_index < MAX_LOCAL_MASK_LAYERS {
            layer_index
        } else {
            MAX_LOCAL_MASK_LAYERS - 1
        };
        let ghost base = self@;
        if self.local_mask_layers.len() == 0 {
            let layer = self.legacy_layer();
            self.local_mask_layers.push(layer);
        }
        let ghost own = self.local_mask_layers@;
        assert(own =~= if base.local_mask_layers.len() == 0 {
            seq![base.legacy_layer()]
        } else {
            base.local_mask_layers
        });
        while self.local_mask_layers.len() <= index
            invariant
                index < MAX_LOCAL_MASK_LAYERS,
                self@ == (ClipView { local_mask_layers: self.local_mask_layers@, ..base }),
                own.len() <= self.local_mask_layers.len(),
                self.local_mask_layers.len() > index ==> self.local_mask_layers.len() == own.len()
                    || self.local_mask_layers.len() == index + 1,
                self.local_mask_layers@ == own + Seq::new(
                    (self.local_mask_layers.len() - own.len()) as nat,
                    |i: int| LocalMaskLayer::neutral(),
                ),
            decreases index + 1 - self.local_mask_layers.len(),
        {
            self.local_mask_layers.push(LocalMaskLayer::default());
            assert(self.local_mask_layers@ =~= own + Seq::new(
                (self.local_mask_layers.len() - own.len()) as nat,
                |i: int| LocalMaskLayer::neutral(),
            ));
        }
        assert(self.local_mask_layers@ =~= base.layers_up_to(layer_index as int));
        index
    }

    /// How many layers there are, at least one.
    pub fn local_mask_layer_count(&self) -> (n: usize)
        ensures
            n == self@.shown_layers().len(),
    {
        if self.local_mask_layers.len() == 0 {
            1
        } else if self.local_mask_layers.len() > MAX_LOCAL_MASK_LAYERS {
            MAX_LOCAL_MASK_LAYERS
        } else {
            self.local_mask_layers.len()
        }
    }

    /// Adds a neutral layer. Gives its index, or `None` where there are as many as may
    /// be.
    pub fn add_local_mask_layer(&mut self) -> (index: Option<usize>)
        ensures
            index is Some <==> old(self)@.local_mask_layers.len() < MAX_LOCAL_MASK_LAYERS,
            index is Some ==> index->0 == final(self)@.local_mask_layers.len() - 1,
            final(self)@ == old(self)@.with_new_layer(),
    {
        if self.local_mask_layers.len() >= MAX_LOCAL_MASK_LAYERS {
            return None;
        }
        if self.local_mask_layers.len() == 0 {
            self.ensure_local_mask_layer(0);
        }
        self.local_mask_layers.push(LocalMaskLayer::default());
        Some(self.local_mask_layers.len() - 1)
    }

    /// All layers that are shown.
    pub fn get_local_mask_layers(&self) -> (layers: Vec<LocalMaskLayer>)
        ensures
            layers@ == self@.shown_layers(),
    {
        if self.local_mask_layers.len() == 0 {
            let layers = vec![self.legacy_layer()];
            assert(layers@ =~= self@.shown_layers());
            return layers;
        }
        let mut layers = crate::copying::copy_list(&self.local_mask_layers);
        layers.truncate(MAX_LOCAL_MASK_LAYERS);
        assert(layers@ =~= self@.shown_layers());
        layers
    }

    /// The layer that is meant by an index.
    pub fn mask_layer(&self, layer_index: usize) -> (layer: LocalMaskLayer)
        ensures
            layer == self@.layer(layer_index as int),
    {
        if self.local_mask_layers.len() == 0 {
            if layer_index == 0 {
                return self.legacy_layer();
            }
            return LocalMaskLayer::default();
        }
        let index: usize = if layer_index < MAX_LOCAL_MASK_LAYERS {
            layer_index
        } else {
            MAX_LOCAL_MASK_LAYERS - 1
        };
        if index < self.local_mask_layers.len() {
            self.local_mask_layers[index]
        } else {
            self.local_mask_layers[self.local_mask_layers.len() - 1]
        }
    }

    /// The region of the layer that is meant by an index.
    pub fn get_local_mask_layer(&self, layer_index: usize) -> (region: (
        bool,
        Scalar,
        Scalar,
        Scalar,
        Scalar,
        Scalar,
    ))
        ensures
            ({
                let l = self@.layer(layer_index as int);
                region == (l.enabled, l.center_x, l.center_y, l.radius, l.feather, l.strength)
            }),
    {
        let l = self.mask_layer(layer_index);
        (l.enabled, l.center_x, l.center_y, l.radius, l.feather, l.strength)
    }

    /// Sets the region of the layer that is meant by an index; all numbers lie between
    /// 0 and 1.
    pub fn set_local_mask_layer(
        &mut self,
        layer_index: usize,
        enabled: bool,
        center_x: Scalar,
        center_y: Scalar,
        radius: Scalar,
        feather: Scalar,
        strength: Scalar,
    )
        ensures
            final(self)@ == old(self)@.with_region(
                layer_index as int,
                enabled,
                center_x,
                center_y,
                radius,
                feather,
                strength,
            ),
    {
        let index = self.ensure_local_mask_layer(layer_index);
        let mut layer = self.local_mask_layers[index];
        layer.enabled = enabled;
        layer.center_x = to_share(center_x);
        layer.center_y = to_share(center_y);
        layer.radius = to_share(radius);
        layer.feather = to_share(feather);
        layer.strength = to_share(strength);
        self.local_mask_layers.set(index, layer);
    }

    /// The adjustments of the layer that is meant by an index.
    pub fn get_local_mask_adjust_layer(&self, layer_index: usize) -> (adjust: (
        Scalar,
        Scalar,
        Scalar,
        Scalar,
        Scalar,
    ))
        ensures
            ({
                let l = self@.layer(layer_index as int);
                adjust == (l.brightness, l.contrast, l.saturation, l.opacity, l.blur_sigma)
            }),
    {
        let l = self.mask_layer(layer_index);
        (l.brightness, l.contrast, l.saturation, l.opacity, l.blur_sigma)
    }

    /// Sets the adjustments of the layer that is meant by an index, each within its
    /// range.
    pub fn set_local_mask_adjust_layer(
        &mut self,
        layer_index: usize,
        brightness: Scalar,
        contrast: Scalar,
        saturation: Scalar,
        opacity: Scalar,
        blur_sigma: Scalar,
    )
        ensures
            final(self)@ == old(self)@.with_adjust(
                layer_index as int,
                brightness,
                contrast,
                saturation,
                opacity,
                blur_sigma,
            ),
    {
        let index = self.ensure_local_mask_layer(layer_index);
        let zero = Scalar { bits: ZERO };
        let two = Scalar { bits: TWO };
        let mut layer = self.local_mask_layers[index];
        layer.brightness = brightness.clamp(Scalar { bits: MINUS_ONE }, Scalar { bits: ONE });
        layer.contrast = contrast.clamp(zero, two);
        layer.saturation = saturation.clamp(zero, two);
        layer.opacity = to_share(opacity);
        layer.blur_sigma = blur_sigma.clamp(zero, Scalar { bits: SIXTY_FOUR });
        self.local_mask_layers.set(index, layer);
    }
}

/// A clip never has more layers than it may, as far as it depends on adding and
/// setting them.
pub proof fn layers_stay_few(c: ClipView, index: int, layer: LocalMaskLayer)
    requires
        index >= 0,
        c.local_mask_layers.len() <= MAX_LOCAL_MASK_LAYERS,
    ensures
        c.with_new_layer().local_mask_layers.len() <= MAX_LOCAL_MASK_LAYERS,
        c.with_layer(index, layer).local_mask_layers.len() <= MAX_LOCAL_MASK_LAYERS,
        c.with_layer(index, layer).layer(index) == layer,
{
}

} // verus!
