//! Layer metadata: visibility, opacity, z-order and transform.
use vstd::prelude::*;

use crate::linalg::mat3_diagonal;
use crate::opacity::{
    clamp_unit_bits, is_nan_bits, is_positive_bits, Opacity, NEG_INFINITY_BITS, NEG_ZERO_BITS,
    ONE_BITS, POS_INFINITY_BITS,
};

verus! {

/// Identifier of a layer, unique within its tree.
pub type LayerId = u64;

/// Longest accepted layer name, in characters.
pub const MAX_NAME_LEN: usize = 256;

/// Lowest accepted z-order.
pub const MIN_Z_ORDER: i32 = -10000;

/// Highest accepted z-order.
pub const MAX_Z_ORDER: i32 = 10000;

/// A layer name is non-empty and at most `MAX_NAME_LEN` characters long.
pub open spec fn valid_name(name: Seq<char>) -> bool {
    0 < name.len() <= MAX_NAME_LEN
}

/// A z-order lies in `[MIN_Z_ORDER, MAX_Z_ORDER]`.
pub open spec fn valid_z_order(z: i32) -> bool {
    MIN_Z_ORDER <= z <= MAX_Z_ORDER
}

/// One layer of the canvas.
#[derive(Debug, Clone)]
pub struct Layer {
    pub id: LayerId,
    pub name: String,
    pub visible: bool,
    pub opacity: Opacity,
    pub z_order: i32,
    pub transform: glam::Mat3,
}

impl Layer {
    /// Whether the layer is drawn: visible with an opacity above zero.
    pub open spec fn renderable(&self) -> bool {
        self.visible && is_positive_bits(self.opacity@)
    }

    /// A visible, fully opaque layer at z-order 0 with the identity transform.
    pub fn new(id: LayerId, name: String) -> (r: Layer)
        requires
            valid_name(name@),
        ensures
            r.id == id,
            r.name@ == name@,
            r.visible,
            r.opacity@ == ONE_BITS,
            r.z_order == 0,
            r.transform == mat3_diagonal(ONE_BITS),
    {
        Layer {
            id,
            name,
            visible: true,
            opacity: Opacity::opaque(),
            z_order: 0,
            transform: crate::linalg::identity_transform(),
        }
    }

    /// Shows or hides the layer.
    pub fn set_visible(&mut self, visible: bool)
        ensures
            *final(self) == (Layer { visible, ..*old(self) }),
    {
        self.visible = visible;
    }

    /// Sets the opacity to the number with bit pattern `bits`, clamped into
    /// `[0.0, 1.0]`.
    pub fn set_opacity(&mut self, bits: u32)
        requires
            !is_nan_bits(bits),
        ensures
            final(self).opacity@ == clamp_unit_bits(bits),
            *final(self) == (Layer { opacity: final(self).opacity, ..*old(self) }),
    {
        self.opacity = Opacity::clamped(bits);
    }

    /// Sets the opacity to the number with bit pattern `bits`, clamped into
    /// `[0.0, 1.0]`, unless that is NaN; reports whether it did.
    pub fn try_set_opacity(&mut self, bits: u32) -> (r: bool)
        ensures
            r == !is_nan_bits(bits),
            r ==> final(self).opacity@ == clamp_unit_bits(bits) && *final(self) == (Layer {
                opacity: final(self).opacity,
                ..*old(self)
            }),
            !r ==> *final(self) == *old(self),
    {
        let nan = (POS_INFINITY_BITS < bits && bits < NEG_ZERO_BITS) || NEG_INFINITY_BITS < bits;
        if nan {
            false
        } else {
            self.set_opacity(bits);
            true
        }
    }

    /// Sets the z-order.
    pub fn set_z_order(&mut self, z_order: i32)
        requires
            valid_z_order(z_order),
        ensures
            *final(self) == (Layer { z_order, ..*old(self) }),
    {
        self.z_order = z_order;
    }

    /// Sets the z-order if it lies in `[MIN_Z_ORDER, MAX_Z_ORDER]`; reports
    /// whether it did.
    pub fn try_set_z_order(&mut self, z_order: i32) -> (r: bool)
        ensures
            r == valid_z_order(z_order),
            r ==> *final(self) == (Layer { z_order, ..*old(self) }),
            !r ==> *final(self) == *old(self),
    {
        if MIN_Z_ORDER <= z_order && z_order <= MAX_Z_ORDER {
            self.set_z_order(z_order);
            true
        } else {
            false
        }
    }

    /// Replaces the layer transform.
    pub fn set_transform(&mut self, transform: glam::Mat3)
        ensures
            *final(self) == (Layer { transform, ..*old(self) }),
    {
        self.transform = transform;
    }

    /// Whether the layer is drawn: visible with an opacity above zero.
    pub fn is_renderable(&self) -> (r: bool)
        ensures
            r == self.renderable(),
    {
        self.visible && self.opacity.is_positive()
    }
}

impl Default for Layer {
    /// Layer 0, named "Layer".
    fn default() -> (r: Layer)
        ensures
            r.id == 0,
            r.name@ == "Layer"@,
            r.visible,
            r.opacity@ == ONE_BITS,
            r.z_order == 0,
            r.transform == mat3_diagonal(ONE_BITS),
    {
        proof {
            reveal_strlit("Layer");
        }
        Layer::new(0, "Layer".to_string())
    }
}

} // verus!
